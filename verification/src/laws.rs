//! General laws of the scan, stated and proved over its spec functions.
//!
//! `volume_record` is the general shape of one library-volume record: a
//! `"path"` key, whitespace, its quoted value, then — past any content that
//! closes no block and does not spell the `"apps"` key — an `"apps"` block
//! whose body, before the quoted target id, closes no block and does not
//! spell that id. `volume_entry` is the canonical record with single spaces
//! and nothing else in the block. The laws pin down the scan on documents
//! built around such records: a record standing after any head that holds
//! no `"path"` key gives its path back verbatim, whatever stands between
//! its tokens and whatever follows it; of two records the first in document
//! order wins; and a document in which the quoted id never occurs cannot
//! match anywhere.

use vstd::prelude::*;
use crate::scan::apps_key;
use crate::scan::brace_free;
use crate::scan::find_lit;
use crate::scan::is_ws;
use crate::scan::lit_at;
use crate::scan::match_at;
use crate::scan::path_key;
use crate::scan::scan_doc;
use crate::scan::scan_from;
use crate::scan::ws_end;

verus! {

/// Every byte of `s` is whitespace.
pub open spec fn all_ws(s: Seq<u8>) -> bool {
    forall|i: int| 0 <= i < s.len() ==> is_ws(s[i])
}

/// One library-volume record in its general shape, ending right after the
/// target id: `"path"<w1>"<path>"<g2>"apps"<w3>{<g4>"<app_id>`. The runs
/// `w1` and `w3` are whitespace; `g2` and `g4` carry whatever unrelated
/// content the laws' side conditions allow.
pub open spec fn volume_record(
    w1: Seq<u8>,
    path: Seq<u8>,
    g2: Seq<u8>,
    w3: Seq<u8>,
    g4: Seq<u8>,
    app_id: Seq<u8>,
) -> Seq<u8> {
    path_key() + w1 + seq![34u8] + path + seq![34u8] + g2 + apps_key() + w3 + seq![123u8] + g4
        + seq![34u8] + app_id
}

/// One canonical library-volume record:
/// `"path" "<path>" "apps" { "<app_id>" }`.
pub open spec fn volume_entry(path: Seq<u8>, app_id: Seq<u8>) -> Seq<u8> {
    volume_record(seq![32u8], path, seq![32u8], seq![32u8], seq![32u8], app_id) + entry_tail()
}

/// The close of the canonical record after the id: `" }`.
pub open spec fn entry_tail() -> Seq<u8> {
    seq![34u8, 32u8, 125u8]
}

/// `find_lit` answers the least occurrence: an occurrence at `k` with none
/// before it, searching from `from`, pins the answer to `k`.
proof fn lemma_find_lit_exact(doc: Seq<u8>, from: int, lit: Seq<u8>, k: int)
    requires
        0 <= from <= k,
        lit_at(doc, k, lit),
        forall|i: int| from <= i < k ==> !lit_at(doc, i, lit),
    ensures
        find_lit(doc, from, lit) == Some(k),
    decreases k - from,
{
    if from < k {
        lemma_find_lit_exact(doc, from + 1, lit, k);
    }
}

/// A successful `find_lit` points at an occurrence of `lit`.
proof fn lemma_find_lit_hit(doc: Seq<u8>, from: int, lit: Seq<u8>)
    requires
        find_lit(doc, from, lit) is Some,
    ensures
        lit_at(doc, find_lit(doc, from, lit).unwrap(), lit),
        from <= find_lit(doc, from, lit).unwrap(),
    decreases doc.len() - from,
{
    if from < 0 || from > doc.len() {
    } else if lit_at(doc, from, lit) {
    } else if from == doc.len() {
    } else {
        lemma_find_lit_hit(doc, from + 1, lit);
    }
}

/// A whitespace run ends where the first non-whitespace byte stands.
proof fn lemma_ws_run(doc: Seq<u8>, j: int, e: int)
    requires
        0 <= j <= e < doc.len(),
        forall|x: int| j <= x < e ==> is_ws(doc[x]),
        !is_ws(doc[e]),
    ensures
        ws_end(doc, j) == e,
    decreases e - j,
{
    if j < e {
        lemma_ws_run(doc, j + 1, e);
    }
}

/// Positions where no `"path"` key stands contribute nothing: the scan from
/// `i` equals the scan from `p` when the key stands nowhere in between.
proof fn lemma_scan_skip(doc: Seq<u8>, app_id: Seq<u8>, i: int, p: int)
    requires
        0 <= i <= p,
        forall|q: int| i <= q < p ==> !lit_at(doc, q, path_key()),
    ensures
        scan_from(doc, app_id, i) == scan_from(doc, app_id, p),
    decreases p - i,
{
    if i < p {
        if i < doc.len() {
            assert(match_at(doc, app_id, i) is None);
        }
        lemma_scan_skip(doc, app_id, i + 1, p);
    }
}

/// A volume record anchored right after `pre` matches and captures exactly
/// its path, whatever stands around it. The side conditions are what the
/// record's shape owes the scan: the path value holds no quote, as any
/// quoted string value must not; the content between the value and the
/// `"apps"` key closes no block and never spells that key; and the block
/// content before the target id closes no block and never spells the
/// quoted id.
#[verifier::rlimit(100)]
proof fn lemma_match_record_at(
    pre: Seq<u8>,
    w1: Seq<u8>,
    path: Seq<u8>,
    g2: Seq<u8>,
    w3: Seq<u8>,
    g4: Seq<u8>,
    app_id: Seq<u8>,
    rest: Seq<u8>,
)
    requires
        all_ws(w1),
        all_ws(w3),
        forall|i: int| 0 <= i < path.len() ==> path[i] != 34,
        forall|q: int| 0 <= q < g2.len() ==> !lit_at(g2 + apps_key(), q, apps_key()),
        forall|i: int| 0 <= i < g2.len() ==> g2[i] != 125,
        forall|q: int|
            0 <= q < g4.len() ==> !lit_at(g4 + seq![34u8] + app_id, q, seq![34u8] + app_id),
        forall|i: int| 0 <= i < g4.len() ==> g4[i] != 125,
    ensures
        match_at(
            pre + volume_record(w1, path, g2, w3, g4, app_id) + rest,
            app_id,
            pre.len() as int,
        ) == Some(path),
{
    let doc = pre + volume_record(w1, path, g2, w3, g4, app_id) + rest;
    let b = pre.len() as int;
    let j = b + 6 + w1.len();
    let k = j + 1 + path.len();
    let a = k + 1 + g2.len();
    let m = a + 6 + w3.len();
    let qp = m + 1 + g4.len();
    let idn = app_id.len() as int;
    assert(doc.len() == qp + 1 + idn + rest.len());

    // the `"path"` key, then whitespace up to the value's opening quote
    assert(doc.subrange(b, b + 6) =~= path_key());
    assert(lit_at(doc, b, path_key()));
    assert(forall|x: int| b + 6 <= x < j ==> doc[x] == w1[x - b - 6]);
    assert(doc[j] == 34);
    lemma_ws_run(doc, b + 6, j);

    // the value runs to its closing quote at k, and holds no quote itself
    assert(forall|x: int| j + 1 <= x < k ==> doc[x] == path[x - j - 1]);
    assert(doc[k] == 34);
    assert(doc.subrange(k, k + 1) =~= seq![34u8]);
    assert forall|i: int| j + 1 <= i < k implies !lit_at(doc, i, seq![34u8]) by {
        if lit_at(doc, i, seq![34u8]) {
            assert(doc.subrange(i, i + 1)[0] == doc[i]);
        }
    }
    lemma_find_lit_exact(doc, j + 1, seq![34u8], k);
    assert(doc.subrange(j + 1, k) =~= path);

    // past `g2`, which spells no `"apps"` and closes no block, the key
    let s2 = g2 + apps_key();
    assert(forall|x: int| k + 1 <= x < a + 6 ==> doc[x] == s2[x - k - 1]);
    assert(doc.subrange(a, a + 6) =~= apps_key());
    assert forall|q: int| k + 1 <= q < a implies !lit_at(doc, q, apps_key()) by {
        if lit_at(doc, q, apps_key()) {
            assert(s2.subrange(q - k - 1, q - k - 1 + 6) =~= doc.subrange(q, q + 6));
            assert(lit_at(s2, q - k - 1, apps_key()));
        }
    }
    lemma_find_lit_exact(doc, k + 1, apps_key(), a);
    assert(brace_free(doc, k + 1, a));

    // whitespace after the key, then the block opens at m
    assert(forall|x: int| a + 6 <= x < m ==> doc[x] == w3[x - a - 6]);
    assert(doc[m] == 123);
    lemma_ws_run(doc, a + 6, m);

    // past `g4`, which spells no quoted id and closes no block, the id
    let idkey = seq![34u8] + app_id;
    let s4 = g4 + seq![34u8] + app_id;
    assert(forall|x: int| m + 1 <= x < qp + 1 + idn ==> doc[x] == s4[x - m - 1]);
    assert(doc.subrange(qp, qp + 1 + idn) =~= idkey);
    assert forall|q: int| m + 1 <= q < qp implies !lit_at(doc, q, idkey) by {
        if lit_at(doc, q, idkey) {
            assert(s4.subrange(q - m - 1, q - m - 1 + 1 + idn) =~= doc.subrange(q, q + 1 + idn));
            assert(lit_at(s4, q - m - 1, idkey));
        }
    }
    lemma_find_lit_exact(doc, m + 1, idkey, qp);
    assert(brace_free(doc, m + 1, qp));

    assert(match_at(doc, app_id, b) == Some(path));
}

/// Round trip of the captured value, at full generality: an index built of
/// an unrelated head that holds no `"path"` key, then one volume record —
/// any whitespace runs, any block-respecting content between its value and
/// its `"apps"` block and before its id — then anything at all, scans to
/// that record's path, byte for byte unchanged.
pub proof fn lemma_record_round_trip(
    pre: Seq<u8>,
    w1: Seq<u8>,
    path: Seq<u8>,
    g2: Seq<u8>,
    w3: Seq<u8>,
    g4: Seq<u8>,
    app_id: Seq<u8>,
    rest: Seq<u8>,
)
    requires
        forall|q: int|
            0 <= q < pre.len() ==> !lit_at(
                pre + volume_record(w1, path, g2, w3, g4, app_id) + rest,
                q,
                path_key(),
            ),
        all_ws(w1),
        all_ws(w3),
        forall|i: int| 0 <= i < path.len() ==> path[i] != 34,
        forall|q: int| 0 <= q < g2.len() ==> !lit_at(g2 + apps_key(), q, apps_key()),
        forall|i: int| 0 <= i < g2.len() ==> g2[i] != 125,
        forall|q: int|
            0 <= q < g4.len() ==> !lit_at(g4 + seq![34u8] + app_id, q, seq![34u8] + app_id),
        forall|i: int| 0 <= i < g4.len() ==> g4[i] != 125,
    ensures
        scan_doc(pre + volume_record(w1, path, g2, w3, g4, app_id) + rest, app_id) == Some(path),
{
    let doc = pre + volume_record(w1, path, g2, w3, g4, app_id) + rest;
    let b = pre.len() as int;
    lemma_match_record_at(pre, w1, path, g2, w3, g4, app_id, rest);
    lemma_scan_skip(doc, app_id, 0, b);
    assert(scan_from(doc, app_id, b) == Some(path));
}

/// Round trip of the captured value for the canonical record: an unrelated
/// head that holds no `"path"` key, one canonical volume record whose
/// `"apps"` block lists the target id, then anything at all.
pub proof fn lemma_entry_round_trip(pre: Seq<u8>, path: Seq<u8>, app_id: Seq<u8>, rest: Seq<u8>)
    requires
        forall|q: int|
            0 <= q < pre.len() ==> !lit_at(pre + volume_entry(path, app_id) + rest, q, path_key()),
        forall|i: int| 0 <= i < path.len() ==> path[i] != 34,
    ensures
        scan_doc(pre + volume_entry(path, app_id) + rest, app_id) == Some(path),
{
    let sp = seq![32u8];
    let record = volume_record(sp, path, sp, sp, sp, app_id);
    let tail_rest = entry_tail() + rest;
    assert(pre + volume_entry(path, app_id) + rest =~= pre + record + tail_rest);
    assert forall|q: int| 0 <= q < sp.len() implies !lit_at(sp + apps_key(), q, apps_key()) by {
        if lit_at(sp + apps_key(), q, apps_key()) {
            assert((sp + apps_key()).subrange(q, q + 6)[0] == (sp + apps_key())[q]);
        }
    }
    let idkey = seq![34u8] + app_id;
    assert forall|q: int| 0 <= q < sp.len() implies !lit_at(sp + idkey, q, idkey) by {
        if lit_at(sp + idkey, q, idkey) {
            assert((sp + idkey).subrange(q, q + 1 + app_id.len())[0] == (sp + idkey)[q]);
        }
    }
    assert(sp + seq![34u8] + app_id =~= sp + idkey);
    lemma_record_round_trip(pre, sp, path, sp, sp, sp, app_id, tail_rest);
}

/// Round trip of the captured value: an index holding exactly one canonical
/// volume record whose `"apps"` block lists the target id scans to that
/// record's path, byte for byte unchanged.
pub proof fn lemma_single_entry_round_trip(path: Seq<u8>, app_id: Seq<u8>)
    requires
        forall|i: int| 0 <= i < path.len() ==> path[i] != 34,
    ensures
        scan_doc(volume_entry(path, app_id), app_id) == Some(path),
{
    let empty = Seq::<u8>::empty();
    lemma_entry_round_trip(empty, path, app_id, empty);
    assert(empty + volume_entry(path, app_id) + empty =~= volume_entry(path, app_id));
}

/// First match wins: of two volume records that both list the target id,
/// the scan returns the path of the one that stands first in the document.
pub proof fn lemma_first_entry_wins(path1: Seq<u8>, path2: Seq<u8>, app_id: Seq<u8>)
    requires
        forall|i: int| 0 <= i < path1.len() ==> path1[i] != 34,
    ensures
        scan_doc(volume_entry(path1, app_id) + volume_entry(path2, app_id), app_id) == Some(
            path1,
        ),
{
    let empty = Seq::<u8>::empty();
    lemma_entry_round_trip(empty, path1, app_id, volume_entry(path2, app_id));
    assert(empty + volume_entry(path1, app_id) + volume_entry(path2, app_id) =~= volume_entry(
        path1,
        app_id,
    ) + volume_entry(path2, app_id));
}

/// No candidate can match at or after `i` when the quoted id never occurs
/// in the document.
proof fn lemma_scan_from_none(doc: Seq<u8>, app_id: Seq<u8>, i: int)
    requires
        0 <= i,
        forall|q: int| !lit_at(doc, q, seq![34u8] + app_id),
    ensures
        scan_from(doc, app_id, i) is None,
    decreases doc.len() - i,
{
    if i < doc.len() {
        if match_at(doc, app_id, i) is Some {
            let j = ws_end(doc, i + 6);
            let k = find_lit(doc, j + 1, seq![34u8]).unwrap();
            let a = find_lit(doc, k + 1, apps_key()).unwrap();
            let m = ws_end(doc, a + 6);
            assert(find_lit(doc, m + 1, seq![34u8] + app_id) is Some);
            lemma_find_lit_hit(doc, m + 1, seq![34u8] + app_id);
            assert(false);
        }
        lemma_scan_from_none(doc, app_id, i + 1);
    }
}

/// Owed failure: an index in which the quoted target id never occurs — so
/// no volume entry references the application — scans to nothing.
pub proof fn lemma_unlisted_id_never_matches(doc: Seq<u8>, app_id: Seq<u8>)
    requires
        forall|q: int| !lit_at(doc, q, seq![34u8] + app_id),
    ensures
        scan_doc(doc, app_id) is None,
{
    lemma_scan_from_none(doc, app_id, 0);
}

} // verus!
