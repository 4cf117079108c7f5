//! Stat counters reported by a node: names of the form `scope>>>id>>>category>>>metric`.

use vstd::prelude::*;
use vstd::string::*;

use crate::error::{is_not_found, means_not_found, AppError};
use crate::text::{chars_of, text_eq, lower_case};
use vstd::utf8::encode_utf8;

verus! {

/// Structured stat record after splitting the `>>>` separated name.
#[derive(Debug)]
pub struct StatRecord {
    pub name: String,
    pub parts: Vec<String>,
    pub scope: Option<String>,
    pub id: Option<String>,
    pub category: Option<String>,
    pub metric: Option<String>,
    pub value: i64,
}

/// Runtime statistics of a node's Xray process.
#[derive(Debug, Clone, Copy)]
pub struct SysStats {
    pub num_goroutine: u32,
    pub num_gc: u32,
    pub alloc: u64,
    pub total_alloc: u64,
    pub sys: u64,
    pub mallocs: u64,
    pub frees: u64,
    pub live_objects: u64,
    pub pause_total_ns: u64,
    pub uptime: u32,
}

/// Traffic counters of one user.
#[derive(Debug)]
pub struct UserTraffic {
    pub email: String,
    pub uplink: i64,
    pub downlink: i64,
}

/// The separator `>>>` starts at character `i` of `s`.
pub open spec fn sep_at(s: Seq<char>, i: int) -> bool {
    &&& 0 <= i
    &&& i + 3 <= s.len()
    &&& s[i] == '>'
    &&& s[i + 1] == '>'
    &&& s[i + 2] == '>'
}

/// Splitting `s` on `>>>` from left to right, where the current piece began at `start`
/// and the scan has reached `i` (as `str::split` does: leftmost, non-overlapping matches).
pub open spec fn split_from(s: Seq<char>, start: int, i: int) -> Seq<Seq<char>>
    decreases s.len() - i,
{
    if i + 3 > s.len() {
        seq![s.subrange(start, s.len() as int)]
    } else if sep_at(s, i) {
        seq![s.subrange(start, i)] + split_from(s, i + 3, i + 3)
    } else {
        split_from(s, start, i + 1)
    }
}

/// The pieces of a stat name split on `>>>`.
pub open spec fn stat_name_parts(name: Seq<char>) -> Seq<Seq<char>> {
    split_from(name, 0, 0)
}

/// The `k`-th piece, if there is one.
pub open spec fn part_at(parts: Seq<Seq<char>>, k: int) -> Option<Seq<char>> {
    if 0 <= k < parts.len() {
        Some(parts[k])
    } else {
        None
    }
}

/// The character sequence of an optional string.
pub open spec fn opt_text(o: Option<String>) -> Option<Seq<char>> {
    match o {
        Some(s) => Some(s@),
        None => None,
    }
}

/// The character sequences of a list of strings.
pub open spec fn texts(v: Seq<String>) -> Seq<Seq<char>> {
    v.map_values(|s: String| s@)
}

/// `r` is the record for stat `name` with counter value `value`.
pub open spec fn is_stat_record(r: StatRecord, name: Seq<char>, value: i64) -> bool {
    let parts = stat_name_parts(name);
    &&& r.name@ == name
    &&& texts(r.parts@) == parts
    &&& opt_text(r.scope) == part_at(parts, 0)
    &&& opt_text(r.id) == part_at(parts, 1)
    &&& opt_text(r.category) == part_at(parts, 2)
    &&& opt_text(r.metric) == part_at(parts, 3)
    &&& r.value == value
}

/// No `>>>` occurs in `p`.
pub open spec fn sep_free(p: Seq<char>) -> bool {
    forall|j: int| !sep_at(p, j)
}

/// The pieces joined back together with `>>>` between them.
pub open spec fn join_parts(parts: Seq<Seq<char>>) -> Seq<char>
    decreases parts.len(),
{
    if parts.len() == 0 {
        Seq::empty()
    } else if parts.len() == 1 {
        parts[0]
    } else {
        parts[0] + seq!['>', '>', '>'] + join_parts(parts.drop_first())
    }
}

proof fn lemma_join_split_from(s: Seq<char>, start: int, i: int)
    requires
        0 <= start <= i <= s.len(),
    ensures
        join_parts(split_from(s, start, i)) == s.subrange(start, s.len() as int),
    decreases s.len() - i,
{
    if i + 3 > s.len() {
    } else if sep_at(s, i) {
        let rest = split_from(s, i + 3, i + 3);
        lemma_split_from_count(s, i + 3, i + 3);
        lemma_join_split_from(s, i + 3, i + 3);
        let all = seq![s.subrange(start, i)] + rest;
        assert(all[0] == s.subrange(start, i));
        assert(all.drop_first() =~= rest);
        assert(s.subrange(start, i) + seq!['>', '>', '>'] + s.subrange(i + 3, s.len() as int)
            =~= s.subrange(start, s.len() as int));
    } else {
        lemma_join_split_from(s, start, i + 1);
    }
}

proof fn lemma_split_from_pieces_free(s: Seq<char>, start: int, i: int)
    requires
        0 <= start <= i <= s.len(),
        forall|j: int| start <= j < i ==> !sep_at(s, j),
    ensures
        forall|k: int|
            0 <= k < split_from(s, start, i).len() ==> sep_free(#[trigger] split_from(s, start, i)[k]),
    decreases s.len() - i,
{
    if i + 3 > s.len() {
        let a = s.subrange(start, s.len() as int);
        assert forall|j: int| !sep_at(a, j) by {
            if sep_at(a, j) {
                assert(a[j] == s[start + j] && a[j + 1] == s[start + j + 1] && a[j + 2] == s[start
                    + j + 2]);
                assert(sep_at(s, start + j));
            }
        }
        assert(sep_free(a));
        assert(split_from(s, start, i) == seq![a]);
        assert(split_from(s, start, i)[0] == a);
    } else if sep_at(s, i) {
        let a = s.subrange(start, i);
        let rest = split_from(s, i + 3, i + 3);
        lemma_split_from_pieces_free(s, i + 3, i + 3);
        assert forall|j: int| !sep_at(a, j) by {
            if sep_at(a, j) {
                assert(a[j] == s[start + j] && a[j + 1] == s[start + j + 1] && a[j + 2] == s[start
                    + j + 2]);
                assert(sep_at(s, start + j));
            }
        }
        let all = seq![a] + rest;
        assert forall|k: int| 0 <= k < all.len() implies sep_free(#[trigger] all[k]) by {
            if k > 0 {
                assert(all[k] == rest[k - 1]);
            } else {
                assert(all[0] == a);
                assert(sep_free(a));
            }
        }
        assert(split_from(s, start, i) == all);
    } else {
        assert(!sep_at(s, i));
        lemma_split_from_pieces_free(s, start, i + 1);
        assert(split_from(s, start, i) == split_from(s, start, i + 1));
    }
}

/// The number of `>>>` matches in `s` from character `i` on, taken left to right without
/// overlap (as `str::matches` counts them).
pub open spec fn sep_count_from(s: Seq<char>, i: int) -> nat
    decreases s.len() - i,
{
    if i + 3 > s.len() {
        0
    } else if sep_at(s, i) {
        1 + sep_count_from(s, i + 3)
    } else {
        sep_count_from(s, i + 1)
    }
}

/// The number of non-overlapping `>>>` matches in `s`.
pub open spec fn sep_count(s: Seq<char>) -> nat {
    sep_count_from(s, 0)
}

proof fn lemma_split_from_count(s: Seq<char>, start: int, i: int)
    requires
        0 <= start <= i <= s.len(),
    ensures
        split_from(s, start, i).len() == sep_count_from(s, i) + 1,
    decreases s.len() - i,
{
    if i + 3 > s.len() {
    } else if sep_at(s, i) {
        lemma_split_from_count(s, i + 3, i + 3);
    } else {
        lemma_split_from_count(s, start, i + 1);
    }
}

/// Splitting a stat name on `>>>` gives one piece more than there are non-overlapping
/// `>>>` matches in it (so at least one), no piece contains `>>>`, and joining the pieces
/// with `>>>` gives the name back.
pub proof fn stat_name_parts_rejoin(name: Seq<char>)
    ensures
        stat_name_parts(name).len() == sep_count(name) + 1,
        stat_name_parts(name).len() >= 1,
        join_parts(stat_name_parts(name)) == name,
        forall|k: int|
            0 <= k < stat_name_parts(name).len() ==> sep_free(#[trigger] stat_name_parts(name)[k]),
{
    lemma_split_from_count(name, 0, 0);
    lemma_join_split_from(name, 0, 0);
    assert(name.subrange(0, name.len() as int) =~= name);
    lemma_split_from_pieces_free(name, 0, 0);
}

/// Splits `name` on `>>>`, recording the pieces and the first four of them as
/// scope, id, category and metric; the value is 0.
pub fn parse_stat_name(name: &str) -> (r: StatRecord)
    ensures
        is_stat_record(r, name@, 0),
{
    let cs = chars_of(name);
    let n = cs.len();
    let mut parts: Vec<String> = Vec::new();
    let mut start: usize = 0;
    let mut i: usize = 0;
    while n - i >= 3
        invariant
            cs@ == name@,
            n == cs@.len(),
            start <= i <= n,
            texts(parts@) + split_from(cs@, start as int, i as int) == stat_name_parts(name@),
        decreases n - i,
    {
        if cs[i] == '>' && cs[i + 1] == '>' && cs[i + 2] == '>' {
            let piece = name.substring_char(start, i).to_owned();
            let ghost before = texts(parts@);
            parts.push(piece);
            assert(texts(parts@) =~= before.push(piece@));
            assert(split_from(cs@, start as int, i as int) == seq![cs@.subrange(start as int, i as int)]
                + split_from(cs@, i + 3, i + 3));
            assert(texts(parts@) + split_from(cs@, i + 3, i + 3) =~= before + split_from(
                cs@,
                start as int,
                i as int,
            ));
            i = i + 3;
            start = i;
        } else {
            i = i + 1;
        }
    }
    let piece = name.substring_char(start, n).to_owned();
    let ghost before = texts(parts@);
    parts.push(piece);
    assert(texts(parts@) =~= before.push(piece@));
    assert(texts(parts@) =~= stat_name_parts(name@));
    let ghost all = stat_name_parts(name@);
    assert(parts@.len() == all.len());
    let scope = if parts.len() > 0 {
        Some(parts[0].clone())
    } else {
        None
    };
    let id = if parts.len() > 1 {
        Some(parts[1].clone())
    } else {
        None
    };
    let category = if parts.len() > 2 {
        Some(parts[2].clone())
    } else {
        None
    };
    let metric = if parts.len() > 3 {
        Some(parts[3].clone())
    } else {
        None
    };
    proof {
        assert(texts(parts@)[0] == parts@[0]@);
        if parts@.len() > 1 {
            assert(texts(parts@)[1] == parts@[1]@);
        }
        if parts@.len() > 2 {
            assert(texts(parts@)[2] == parts@[2]@);
        }
        if parts@.len() > 3 {
            assert(texts(parts@)[3] == parts@[3]@);
        }
    }
    StatRecord {
        name: name.to_owned(),
        parts,
        scope,
        id,
        category,
        metric,
        value: 0,
    }
}

/// The record for a counter `name` whose value a node reported as `value`.
pub fn stat_record(name: &str, value: i64) -> (r: StatRecord)
    ensures
        is_stat_record(r, name@, value),
{
    let mut rec = parse_stat_name(name);
    rec.value = value;
    rec
}

/// The value answered for a single counter, given what the node replied:
/// its counter (absent counters count 0), or an error. A "not found" error means the
/// counter was never created and also counts 0; other errors are passed on.
pub fn stat_value_from_reply(reply: Result<Option<i64>, AppError>) -> (r: Result<i64, AppError>)
    ensures
        reply matches Ok(Some(v)) ==> r == Ok::<i64, AppError>(v),
        reply matches Ok(None) ==> r == Ok::<i64, AppError>(0),
        reply matches Err(e) ==> (if (e matches AppError::Grpc { code, details } && means_not_found(
            code,
            lower_case(details@),
        )) {
            r == Ok::<i64, AppError>(0)
        } else {
            r == Err::<i64, AppError>(e)
        }),
{
    match reply {
        Ok(Some(v)) => Ok(v),
        Ok(None) => Ok(0),
        Err(e) => {
            let nf = match &e {
                AppError::Grpc { code, details } => is_not_found(*code, details.as_str()),
                _ => false,
            };
            if nf {
                Ok(0)
            } else {
                Err(e)
            }
        },
    }
}

/// The traffic of user `email` from the counters a node reported (none means zero traffic).
pub fn user_traffic(email: String, traffic: Option<(i64, i64)>) -> (r: UserTraffic)
    ensures
        r.email@ == email@,
        traffic matches Some((up, down)) ==> r.uplink == up && r.downlink == down,
        traffic is None ==> r.uplink == 0 && r.downlink == 0,
{
    let (uplink, downlink) = match traffic {
        Some(t) => t,
        None => (0, 0),
    };
    UserTraffic { email, uplink, downlink }
}


/// Lexicographic order of byte strings (what `Ord` on `[u8]` decides).
pub open spec fn bytes_lt(a: Seq<u8>, b: Seq<u8>) -> bool
    decreases a.len(),
{
    if a.len() == 0 {
        b.len() > 0
    } else if b.len() == 0 {
        false
    } else if a[0] < b[0] {
        true
    } else if a[0] > b[0] {
        false
    } else {
        bytes_lt(a.drop_first(), b.drop_first())
    }
}

/// The order of `String`s: lexicographic on their UTF-8 bytes.
pub open spec fn text_lt(a: Seq<char>, b: Seq<char>) -> bool {
    bytes_lt(encode_utf8(a), encode_utf8(b))
}

/// Strictly increasing in the order of `String`s (so no text occurs twice).
pub open spec fn strictly_sorted(t: Seq<Seq<char>>) -> bool {
    forall|i: int, j: int| 0 <= i < j < t.len() ==> text_lt(#[trigger] t[i], #[trigger] t[j])
}

/// The ids (second pieces) of the records that have one.
pub open spec fn record_ids(rs: Seq<StatRecord>) -> Set<Seq<char>> {
    Set::new(|e: Seq<char>| exists|i: int| 0 <= i < rs.len() && opt_text(#[trigger] rs[i].id) == Some(e))
}

proof fn lemma_bytes_lt_irreflexive(a: Seq<u8>)
    ensures
        !bytes_lt(a, a),
    decreases a.len(),
{
    if a.len() > 0 {
        lemma_bytes_lt_irreflexive(a.drop_first());
    }
}

proof fn lemma_bytes_lt_total(a: Seq<u8>, b: Seq<u8>)
    requires
        a != b,
    ensures
        bytes_lt(a, b) || bytes_lt(b, a),
    decreases a.len(),
{
    if a.len() > 0 && b.len() > 0 && a[0] == b[0] {
        if a.drop_first() == b.drop_first() {
            assert(a =~= seq![a[0]] + a.drop_first());
            assert(b =~= seq![b[0]] + b.drop_first());
        }
        lemma_bytes_lt_total(a.drop_first(), b.drop_first());
    } else if a.len() == 0 && b.len() == 0 {
        assert(a =~= b);
    }
}

proof fn lemma_bytes_lt_transitive(a: Seq<u8>, b: Seq<u8>, c: Seq<u8>)
    requires
        bytes_lt(a, b),
        bytes_lt(b, c),
    ensures
        bytes_lt(a, c),
    decreases a.len(),
{
    if a.len() > 0 && b.len() > 0 && c.len() > 0 && a[0] == b[0] && b[0] == c[0] {
        lemma_bytes_lt_transitive(a.drop_first(), b.drop_first(), c.drop_first());
    }
}

proof fn lemma_text_lt_facts()
    ensures
        forall|a: Seq<char>| !text_lt(a, a),
        forall|a: Seq<char>, b: Seq<char>| a != b ==> text_lt(a, b) || text_lt(b, a),
        forall|a: Seq<char>, b: Seq<char>, c: Seq<char>|
            text_lt(a, b) && text_lt(b, c) ==> text_lt(a, c),
{
    assert forall|a: Seq<char>| !text_lt(a, a) by {
        lemma_bytes_lt_irreflexive(encode_utf8(a));
    }
    assert forall|a: Seq<char>, b: Seq<char>| a != b implies text_lt(a, b) || text_lt(b, a) by {
        vstd::utf8::encode_utf8_decode_utf8(a);
        vstd::utf8::encode_utf8_decode_utf8(b);
        lemma_bytes_lt_total(encode_utf8(a), encode_utf8(b));
    }
    assert forall|a: Seq<char>, b: Seq<char>, c: Seq<char>|
        text_lt(a, b) && text_lt(b, c) implies text_lt(a, c) by {
        lemma_bytes_lt_transitive(encode_utf8(a), encode_utf8(b), encode_utf8(c));
    }
}

/// Whether `a` sorts before `b` as `String`s do.
pub fn text_less(a: &str, b: &str) -> (r: bool)
    ensures
        r == text_lt(a@, b@),
{
    let x = a.as_bytes();
    let y = b.as_bytes();
    let mut i: usize = 0;
    assert(x@.skip(0) =~= x@);
    assert(y@.skip(0) =~= y@);
    loop
        invariant
            x@ == encode_utf8(a@),
            y@ == encode_utf8(b@),
            i <= x@.len(),
            i <= y@.len(),
            bytes_lt(x@, y@) == bytes_lt(x@.skip(i as int), y@.skip(i as int)),
        decreases x@.len() - i,
    {
        if i == x.len() {
            return i < y.len();
        }
        if i == y.len() {
            return false;
        }
        if x[i] < y[i] {
            return true;
        }
        if x[i] > y[i] {
            return false;
        }
        assert(x@.skip(i as int).drop_first() =~= x@.skip(i + 1));
        assert(y@.skip(i as int).drop_first() =~= y@.skip(i + 1));
        i += 1;
    }
}

/// Inserts `s` into the sorted list `v` unless it is already there.
fn insert_sorted(v: &mut Vec<String>, s: String)
    requires
        strictly_sorted(texts(old(v)@)),
    ensures
        strictly_sorted(texts(final(v)@)),
        forall|e: Seq<char>|
            texts(final(v)@).contains(e) <==> (texts(old(v)@).contains(e) || e == s@),
{
    proof {
        lemma_text_lt_facts();
    }
    let ghost t0 = texts(v@);
    let n = v.len();
    let mut i: usize = 0;
    while i < n
        invariant
            n == v@.len(),
            t0 == texts(v@),
            i <= n,
            forall|k: int| 0 <= k < i ==> text_lt(#[trigger] t0[k], s@),
        ensures
            i <= n,
            forall|k: int| 0 <= k < i ==> text_lt(#[trigger] t0[k], s@),
            i < n ==> !text_lt(t0[i as int], s@),
        decreases n - i,
    {
        if !text_less(v[i].as_str(), s.as_str()) {
            break;
        }
        i += 1;
    }
    if i < n && text_eq(v[i].as_str(), s.as_str()) {
        assert(t0[i as int] == s@);
        assert forall|e: Seq<char>| texts(v@).contains(e) <==> (t0.contains(e) || e == s@) by {
            if e == s@ {
                assert(t0[i as int] == e);
            }
        }
        return;
    }
    proof {
        if i < n {
            assert(t0[i as int] != s@);
            assert(!text_lt(t0[i as int], s@));
            assert(text_lt(s@, t0[i as int]));
        }
    }
    v.insert(i, s);
    let ghost t1 = texts(v@);
    assert(t1 =~= t0.insert(i as int, s@));
    assert forall|a: int, b: int| 0 <= a < b < t1.len() implies text_lt(#[trigger] t1[a], #[trigger] t1[b]) by {
        if b < i {
        } else if b == i {
            assert(t1[b] == s@);
            assert(t1[a] == t0[a]);
        } else if a < i {
            assert(t1[a] == t0[a]);
            assert(t1[b] == t0[b - 1]);
            assert(text_lt(t0[a], s@));
            if b - 1 > i {
                assert(text_lt(t0[i as int], t0[b - 1]));
            }
            assert(text_lt(s@, t0[b - 1]));
        } else if a == i {
            assert(t1[a] == s@);
            assert(t1[b] == t0[b - 1]);
            if b - 1 > i {
                assert(text_lt(t0[i as int], t0[b - 1]));
            }
        } else {
            assert(t1[a] == t0[a - 1]);
            assert(t1[b] == t0[b - 1]);
        }
    }
    assert forall|e: Seq<char>| t1.contains(e) <==> (t0.contains(e) || e == s@) by {
        if t1.contains(e) {
            let k = choose|k: int| 0 <= k < t1.len() && t1[k] == e;
            if k < i {
                assert(t0[k] == e);
            } else if k > i {
                assert(t0[k - 1] == e);
            }
        }
        if t0.contains(e) {
            let k = choose|k: int| 0 <= k < t0.len() && t0[k] == e;
            if k < i {
                assert(t1[k] == e);
            } else {
                assert(t1[k + 1] == e);
            }
        }
        if e == s@ {
            assert(t1[i as int] == e);
        }
    }
}

/// The users that have traffic counters: the ids of the given `user>>>…` records,
/// each once, in the order of `String`s. The set of ids is kept as a strictly sorted `Vec`:
/// vstd specifies `BTreeSet` only for keys whose order obeys `obeys_cmp`, which `String`
/// keys do not, so a `BTreeSet<String>` here would let nothing be proved of its contents.
pub fn user_emails(records: &Vec<StatRecord>) -> (r: Vec<String>)
    ensures
        strictly_sorted(texts(r@)),
        forall|e: Seq<char>| texts(r@).contains(e) <==> record_ids(records@).contains(e),
{
    let mut out: Vec<String> = Vec::new();
    let n = records.len();
    let mut i: usize = 0;
    while i < n
        invariant
            n == records@.len(),
            i <= n,
            strictly_sorted(texts(out@)),
            forall|e: Seq<char>|
                texts(out@).contains(e) <==> exists|k: int|
                    0 <= k < i && opt_text(#[trigger] records@[k].id) == Some(e),
        decreases n - i,
    {
        match &records[i].id {
            Some(id) => {
                insert_sorted(&mut out, id.clone());
            },
            None => {},
        }
        assert forall|e: Seq<char>|
            texts(out@).contains(e) <==> exists|k: int|
                0 <= k < i + 1 && opt_text(#[trigger] records@[k].id) == Some(e) by {
            if opt_text(records@[i as int].id) == Some(e) {
                assert(exists|k: int| 0 <= k < i + 1 && opt_text(#[trigger] records@[k].id) == Some(e));
            }
        }
        i += 1;
    }
    assert forall|e: Seq<char>| texts(out@).contains(e) <==> record_ids(records@).contains(e) by {
    }
    out
}

/// The user list holds the id of every given record that has one, whatever its counter
/// value, and nothing else; so records that differ only in their counter values give the
/// same user list.
pub proof fn user_list_ignores_counter_values(rs: Seq<StatRecord>, other: Seq<StatRecord>)
    requires
        other.len() == rs.len(),
        forall|i: int| 0 <= i < rs.len() ==> opt_text(#[trigger] other[i].id) == opt_text(rs[i].id),
    ensures
        forall|i: int|
            0 <= i < rs.len() ==> match opt_text(#[trigger] rs[i].id) {
                Some(e) => record_ids(rs).contains(e),
                None => true,
            },
        forall|e: Seq<char>|
            #[trigger] record_ids(rs).contains(e) ==> exists|i: int|
                0 <= i < rs.len() && opt_text(#[trigger] rs[i].id) == Some(e),
        record_ids(other) == record_ids(rs),
{
    assert forall|i: int| 0 <= i < rs.len() implies match opt_text(#[trigger] rs[i].id) {
        Some(e) => record_ids(rs).contains(e),
        None => true,
    } by {
        if let Some(e) = opt_text(rs[i].id) {
            assert(exists|k: int| 0 <= k < rs.len() && opt_text(#[trigger] rs[k].id) == Some(e));
        }
    }
    assert forall|e: Seq<char>| record_ids(other).contains(e) <==> record_ids(rs).contains(e) by {
        if record_ids(rs).contains(e) {
            let i = choose|i: int| 0 <= i < rs.len() && opt_text(#[trigger] rs[i].id) == Some(e);
            assert(opt_text(other[i].id) == Some(e));
        }
        if record_ids(other).contains(e) {
            let i = choose|i: int| 0 <= i < other.len() && opt_text(#[trigger] other[i].id) == Some(e);
            assert(opt_text(rs[i].id) == opt_text(other[i].id));
        }
    }
    assert(record_ids(other) =~= record_ids(rs));
}

} // verus!
