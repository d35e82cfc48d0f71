//! The single-pass scan of the library index document.
//!
//! The index is a loosely nested, brace-delimited key/value text. Only one
//! shape in it matters here: a `"path"` key whose quoted value names a
//! library volume, followed — with arbitrary unrelated content in between,
//! as long as no block closes — by an `"apps"` block that lists the target
//! application id as a quoted key. The scan is deliberately permissive: it
//! does not parse the full grammar, it looks for the first position where
//! that one pattern matches and captures the volume path verbatim.
//!
//! The spec functions in this module define the scan mathematically over
//! byte sequences; `scan_index` is the executable scanner, proved to return
//! exactly what `scan_doc` describes.

use vstd::prelude::*;

verus! {

/// Whitespace between tokens: space, tab, line feed, vertical tab, form
/// feed, carriage return.
pub open spec fn is_ws(b: u8) -> bool {
    b == 32 || b == 9 || b == 10 || b == 11 || b == 12 || b == 13
}

/// The literal `lit` stands in `doc` beginning at position `p`.
pub open spec fn lit_at(doc: Seq<u8>, p: int, lit: Seq<u8>) -> bool {
    &&& 0 <= p
    &&& p + lit.len() <= doc.len()
    &&& doc.subrange(p, p + lit.len()) == lit
}

/// The key token `"path"`, quotes included.
pub open spec fn path_key() -> Seq<u8> {
    seq![34u8, 112u8, 97u8, 116u8, 104u8, 34u8]
}

/// The key token `"apps"`, quotes included.
pub open spec fn apps_key() -> Seq<u8> {
    seq![34u8, 97u8, 112u8, 112u8, 115u8, 34u8]
}

/// The first position at or after `j` holding a byte that is not whitespace,
/// or the end of `doc`.
pub open spec fn ws_end(doc: Seq<u8>, j: int) -> int
    decreases doc.len() - j,
{
    if j < 0 || j >= doc.len() {
        j
    } else if is_ws(doc[j]) {
        ws_end(doc, j + 1)
    } else {
        j
    }
}

/// The least position at or after `from` where `lit` stands in `doc`, if any.
pub open spec fn find_lit(doc: Seq<u8>, from: int, lit: Seq<u8>) -> Option<int>
    decreases doc.len() - from,
{
    if from < 0 || from > doc.len() {
        None
    } else if lit_at(doc, from, lit) {
        Some(from)
    } else if from == doc.len() {
        None
    } else {
        find_lit(doc, from + 1, lit)
    }
}

/// No closing brace stands in `doc` at the positions `from` (inclusive) up
/// to `to` (exclusive): the pattern must not cross the end of a block there.
pub open spec fn brace_free(doc: Seq<u8>, from: int, to: int) -> bool {
    forall|i: int| from <= i < to ==> doc[i] != 125
}

/// The candidate anchored at position `p`: if a `"path"` key stands at `p`,
/// its quoted value is followed — past no closing brace — by an `"apps"`
/// block that lists `app_id` as a quoted key, the captured value is
/// returned; otherwise the candidate fails.
pub open spec fn match_at(doc: Seq<u8>, app_id: Seq<u8>, p: int) -> Option<Seq<u8>> {
    if !lit_at(doc, p, path_key()) {
        None
    } else {
        let j = ws_end(doc, p + 6);
        if !(j < doc.len() && doc[j] == 34) {
            None
        } else {
            match find_lit(doc, j + 1, seq![34u8]) {
                None => None,
                Some(k) => match find_lit(doc, k + 1, apps_key()) {
                    None => None,
                    Some(a) => {
                        if !brace_free(doc, k + 1, a) {
                            None
                        } else {
                            let m = ws_end(doc, a + 6);
                            if !(m < doc.len() && doc[m] == 123) {
                                None
                            } else {
                                match find_lit(doc, m + 1, seq![34u8] + app_id) {
                                    None => None,
                                    Some(q) => {
                                        if brace_free(doc, m + 1, q) {
                                            Some(doc.subrange(j + 1, k))
                                        } else {
                                            None
                                        }
                                    },
                                }
                            }
                        }
                    },
                },
            }
        }
    }
}

/// The capture of the first successful candidate at or after position `i`,
/// in document order.
pub open spec fn scan_from(doc: Seq<u8>, app_id: Seq<u8>, i: int) -> Option<Seq<u8>>
    decreases doc.len() - i,
{
    if i < 0 || i >= doc.len() {
        None
    } else if match_at(doc, app_id, i) is Some {
        match_at(doc, app_id, i)
    } else {
        scan_from(doc, app_id, i + 1)
    }
}

/// The volume path that the scan of the whole document captures for
/// `app_id`, if any candidate matches.
pub open spec fn scan_doc(doc: Seq<u8>, app_id: Seq<u8>) -> Option<Seq<u8>> {
    scan_from(doc, app_id, 0)
}

/// An `Option<usize>` read as an `Option<int>`, to state exec results
/// against the spec-level searches.
pub open spec fn opt_idx(r: Option<usize>) -> Option<int> {
    match r {
        Some(k) => Some(k as int),
        None => None,
    }
}

/// First position at or after `j` holding a non-whitespace byte.
fn skip_ws(doc: &[u8], j: usize) -> (r: usize)
    requires
        j <= doc@.len(),
    ensures
        j <= r <= doc@.len(),
        r == ws_end(doc@, j as int),
{
    let mut i: usize = j;
    while i < doc.len()
        && (doc[i] == 32 || doc[i] == 9 || doc[i] == 10 || doc[i] == 11 || doc[i] == 12
            || doc[i] == 13)
        invariant
            j <= i <= doc@.len(),
            ws_end(doc@, j as int) == ws_end(doc@, i as int),
        decreases doc@.len() - i,
    {
        i = i + 1;
    }
    i
}

/// Whether the six given bytes stand in `doc` at position `p`.
fn check_six_at(doc: &[u8], p: usize, k0: u8, k1: u8, k2: u8, k3: u8, k4: u8, k5: u8) -> (r: bool)
    requires
        p <= doc@.len(),
    ensures
        r == lit_at(doc@, p as int, seq![k0, k1, k2, k3, k4, k5]),
{
    let ghost key: Seq<u8> = seq![k0, k1, k2, k3, k4, k5];
    if doc.len() - p < 6 {
        return false;
    }
    let r = doc[p] == k0 && doc[p + 1] == k1 && doc[p + 2] == k2 && doc[p + 3] == k3
        && doc[p + 4] == k4 && doc[p + 5] == k5;
    proof {
        if r {
            assert(doc@.subrange(p as int, p as int + 6) =~= key);
        } else {
            if lit_at(doc@, p as int, key) {
                assert(doc@.subrange(p as int, p as int + 6)[0] == key[0]);
                assert(doc@.subrange(p as int, p as int + 6)[1] == key[1]);
                assert(doc@.subrange(p as int, p as int + 6)[2] == key[2]);
                assert(doc@.subrange(p as int, p as int + 6)[3] == key[3]);
                assert(doc@.subrange(p as int, p as int + 6)[4] == key[4]);
                assert(doc@.subrange(p as int, p as int + 6)[5] == key[5]);
            }
        }
    }
    r
}

/// The least position at or after `from` holding a double quote.
fn find_quote(doc: &[u8], from: usize) -> (r: Option<usize>)
    requires
        from <= doc@.len(),
    ensures
        opt_idx(r) == find_lit(doc@, from as int, seq![34u8]),
        r matches Some(k) ==> from <= k < doc@.len(),
{
    let mut i: usize = from;
    while i < doc.len()
        invariant
            from <= i <= doc@.len(),
            find_lit(doc@, from as int, seq![34u8]) == find_lit(doc@, i as int, seq![34u8]),
        decreases doc@.len() - i,
    {
        if doc[i] == 34 {
            proof {
                assert(doc@.subrange(i as int, i as int + 1) =~= seq![34u8]);
            }
            return Some(i);
        }
        proof {
            if lit_at(doc@, i as int, seq![34u8]) {
                assert(doc@.subrange(i as int, i as int + 1)[0] == 34);
            }
        }
        i = i + 1;
    }
    proof {
        assert(!lit_at(doc@, doc@.len() as int, seq![34u8]));
    }
    None
}

/// The least position at or after `from` where the `"apps"` key stands.
fn find_apps(doc: &[u8], from: usize) -> (r: Option<usize>)
    requires
        from <= doc@.len(),
    ensures
        opt_idx(r) == find_lit(doc@, from as int, apps_key()),
        r matches Some(a) ==> from <= a && a + 6 <= doc@.len(),
{
    proof {
        assert(seq![34u8, 97u8, 112u8, 112u8, 115u8, 34u8] =~= apps_key());
    }
    let mut i: usize = from;
    while i < doc.len()
        invariant
            from <= i <= doc@.len(),
            find_lit(doc@, from as int, apps_key()) == find_lit(doc@, i as int, apps_key()),
        decreases doc@.len() - i,
    {
        if check_six_at(doc, i, 34, 97, 112, 112, 115, 34) {
            return Some(i);
        }
        i = i + 1;
    }
    proof {
        assert(!lit_at(doc@, doc@.len() as int, apps_key()));
    }
    None
}

/// Whether a double quote followed by the whole of `app_id` stands in `doc`
/// at position `p`.
fn check_quoted_id_at(doc: &[u8], p: usize, app_id: &[u8]) -> (r: bool)
    requires
        p <= doc@.len(),
    ensures
        r == lit_at(doc@, p as int, seq![34u8] + app_id@),
{
    let ghost key: Seq<u8> = seq![34u8] + app_id@;
    if doc.len() - p < 1 || doc.len() - p - 1 < app_id.len() {
        return false;
    }
    if doc[p] != 34 {
        proof {
            if lit_at(doc@, p as int, key) {
                assert(doc@.subrange(p as int, p as int + key.len() as int)[0] == key[0]);
            }
        }
        return false;
    }
    let mut t: usize = 0;
    while t < app_id.len()
        invariant
            0 <= t <= app_id@.len(),
            p + 1 + app_id@.len() <= doc@.len() <= usize::MAX,
            doc@[p as int] == 34,
            key == seq![34u8] + app_id@,
            forall|u: int| 0 <= u < t ==> doc@[p + 1 + u] == app_id@[u],
        decreases app_id@.len() - t,
    {
        if doc[p + 1 + t] != app_id[t] {
            proof {
                if lit_at(doc@, p as int, key) {
                    let u = 1 + t as int;
                    assert(doc@.subrange(p as int, p as int + key.len() as int)[u] == key[u]);
                }
            }
            return false;
        }
        t = t + 1;
    }
    proof {
        assert(doc@.subrange(p as int, p as int + key.len() as int) =~= key);
    }
    true
}

/// The least position at or after `from` where the quoted `app_id` stands.
fn find_quoted_id(doc: &[u8], from: usize, app_id: &[u8]) -> (r: Option<usize>)
    requires
        from <= doc@.len(),
    ensures
        opt_idx(r) == find_lit(doc@, from as int, seq![34u8] + app_id@),
        r matches Some(q) ==> from <= q <= doc@.len(),
{
    let ghost key: Seq<u8> = seq![34u8] + app_id@;
    let mut i: usize = from;
    while i < doc.len()
        invariant
            from <= i <= doc@.len(),
            key == seq![34u8] + app_id@,
            find_lit(doc@, from as int, key) == find_lit(doc@, i as int, key),
        decreases doc@.len() - i,
    {
        if check_quoted_id_at(doc, i, app_id) {
            return Some(i);
        }
        i = i + 1;
    }
    proof {
        assert(!lit_at(doc@, doc@.len() as int, key));
    }
    None
}

/// Whether no closing brace stands in `doc[from..to]`.
fn brace_free_range(doc: &[u8], from: usize, to: usize) -> (r: bool)
    requires
        from <= to <= doc@.len(),
    ensures
        r == brace_free(doc@, from as int, to as int),
{
    let mut i: usize = from;
    while i < to
        invariant
            from <= i <= to <= doc@.len(),
            forall|u: int| from <= u < i ==> doc@[u] != 125,
        decreases to - i,
    {
        if doc[i] == 125 {
            return false;
        }
        i = i + 1;
    }
    true
}

/// The candidate anchored at `p`, executed: returns the captured volume path
/// exactly when the spec-level candidate matches.
fn try_match_at(doc: &[u8], app_id: &[u8], p: usize) -> (r: Option<Vec<u8>>)
    requires
        p <= doc@.len(),
    ensures
        (r is Some) == (match_at(doc@, app_id@, p as int) is Some),
        r matches Some(v) ==> v@ == match_at(doc@, app_id@, p as int).unwrap(),
{
    proof {
        assert(seq![34u8, 112u8, 97u8, 116u8, 104u8, 34u8] =~= path_key());
    }
    let dlen = doc.len();
    if !check_six_at(doc, p, 34, 112, 97, 116, 104, 34) {
        return None;
    }
    let j = skip_ws(doc, p + 6);
    if j == dlen || doc[j] != 34 {
        return None;
    }
    let k = match find_quote(doc, j + 1) {
        None => {
            return None;
        },
        Some(k) => k,
    };
    let a = match find_apps(doc, k + 1) {
        None => {
            return None;
        },
        Some(a) => a,
    };
    if !brace_free_range(doc, k + 1, a) {
        return None;
    }
    let m = skip_ws(doc, a + 6);
    if m == dlen || doc[m] != 123 {
        return None;
    }
    let q = match find_quoted_id(doc, m + 1, app_id) {
        None => {
            return None;
        },
        Some(q) => q,
    };
    if !brace_free_range(doc, m + 1, q) {
        return None;
    }
    Some(vstd::slice::slice_to_vec(&doc[j + 1..k]))
}

/// Scan the whole document for the first matching candidate, in document
/// order, and hand back the captured volume path.
pub fn scan_index(doc: &[u8], app_id: &[u8]) -> (r: Option<Vec<u8>>)
    ensures
        (r is Some) == (scan_doc(doc@, app_id@) is Some),
        r matches Some(v) ==> v@ == scan_doc(doc@, app_id@).unwrap(),
{
    let mut i: usize = 0;
    while i < doc.len()
        invariant
            0 <= i <= doc@.len(),
            scan_doc(doc@, app_id@) == scan_from(doc@, app_id@, i as int),
        decreases doc@.len() - i,
    {
        match try_match_at(doc, app_id, i) {
            Some(v) => {
                return Some(v);
            },
            None => {},
        }
        i = i + 1;
    }
    None
}

} // verus!
