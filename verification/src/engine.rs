//! The substitution engine: an ordered table of marker rules, each rewriting
//! every non-overlapping occurrence of a literal marker into an expansion
//! fragment. Rules run sequentially over the progressively rewritten string,
//! so text inserted by an earlier rule is visible to the scans of later
//! rules; with the present vocabulary no expansion contains a marker, but the
//! sequential order is part of the contract and must not be reordered.

use vstd::prelude::*;

verus! {

/// The marker occurs in `s` starting at character position `i`.
pub open spec fn occurs_at(s: Seq<char>, pat: Seq<char>, i: int) -> bool {
    0 <= i && i + pat.len() <= s.len() && s.subrange(i, i + pat.len() as int) == pat
}

/// The marker occurs somewhere in `s`.
pub open spec fn occurs(s: Seq<char>, pat: Seq<char>) -> bool {
    exists|i: int| occurs_at(s, pat, i)
}

/// Left-to-right replacement of every non-overlapping occurrence of `pat` in
/// `s` by `rep`. Freshly inserted replacement text is not rescanned: the scan
/// resumes after the inserted fragment.
pub open spec fn replace_all(s: Seq<char>, pat: Seq<char>, rep: Seq<char>) -> Seq<char>
    decreases s.len(),
{
    if pat.len() == 0 || s.len() < pat.len() {
        s
    } else if s.subrange(0, pat.len() as int) == pat {
        rep + replace_all(s.skip(pat.len() as int), pat, rep)
    } else {
        seq![s[0]] + replace_all(s.skip(1), pat, rep)
    }
}

/// Does `pat` occur in `s` at character position `i`?
fn matches_at(s: &str, i: usize, pat: &str) -> (r: bool)
    requires
        i + pat@.len() <= s@.len(),
        s@.len() <= usize::MAX,
    ensures
        r == occurs_at(s@, pat@, i as int),
{
    let m = pat.unicode_len();
    let mut j: usize = 0;
    while j < m
        invariant
            j <= m,
            m == pat@.len(),
            i + m <= s@.len(),
            s@.len() <= usize::MAX,
            forall|k: int| 0 <= k < j ==> s@[i + k] == pat@[k],
        decreases m - j,
    {
        if s.get_char(i + j) != pat.get_char(j) {
            proof {
                assert(s@.subrange(i as int, i + m) != pat@) by {
                    assert(s@.subrange(i as int, i + m)[j as int] == s@[i + j]);
                }
            }
            return false;
        }
        j += 1;
    }
    proof {
        assert(s@.subrange(i as int, i + m) =~= pat@);
    }
    true
}

/// Unfolding `replace_all` when the marker matches at the front.
proof fn lemma_replace_all_step_match(s: Seq<char>, pat: Seq<char>, rep: Seq<char>)
    requires
        0 < pat.len() <= s.len(),
        s.subrange(0, pat.len() as int) == pat,
    ensures
        replace_all(s, pat, rep) == rep + replace_all(s.skip(pat.len() as int), pat, rep),
{
}

/// Unfolding `replace_all` when the marker does not match at the front: the
/// first character is kept and the scan moves on by one.
proof fn lemma_replace_all_step_miss(s: Seq<char>, pat: Seq<char>, rep: Seq<char>)
    requires
        pat.len() > 0,
        s.len() > 0,
        !occurs_at(s, pat, 0),
    ensures
        replace_all(s, pat, rep) == seq![s[0]] + replace_all(s.skip(1), pat, rep),
{
    if s.len() < pat.len() {
        assert(s.skip(1).len() < pat.len());
        assert(seq![s[0]] + s.skip(1) =~= s);
    }
}

/// A text in which the marker never occurs is left unchanged.
proof fn lemma_replace_all_identity(s: Seq<char>, pat: Seq<char>, rep: Seq<char>)
    requires
        pat.len() > 0,
        !occurs(s, pat),
    ensures
        replace_all(s, pat, rep) == s,
    decreases s.len(),
{
    if s.len() >= pat.len() {
        assert(!occurs_at(s, pat, 0));
        assert forall|i: int| !occurs_at(s.skip(1), pat, i) by {
            if occurs_at(s.skip(1), pat, i) {
                assert(s.skip(1).subrange(i, i + pat.len() as int) =~= s.subrange(
                    i + 1,
                    i + 1 + pat.len() as int,
                ));
                assert(occurs_at(s, pat, i + 1));
            }
        }
        lemma_replace_all_identity(s.skip(1), pat, rep);
        lemma_replace_all_step_miss(s, pat, rep);
        assert(seq![s[0]] + s.skip(1) =~= s);
    }
}

/// Replaces every non-overlapping occurrence of `pat` in `s` by `rep`,
/// scanning left to right and never rescanning inserted replacement text.
fn replace_all_exec(s: &str, pat: &str, rep: &str) -> (out: String)
    requires
        pat@.len() > 0,
    ensures
        out@ == replace_all(s@, pat@, rep@),
{
    let n = s.unicode_len();
    let m = pat.unicode_len();
    let mut out = String::new();
    let mut i: usize = 0;
    proof {
        assert(s@.skip(0) =~= s@);
        assert(Seq::<char>::empty() + replace_all(s@, pat@, rep@) =~= replace_all(
            s@,
            pat@,
            rep@,
        ));
    }
    while i < n
        invariant
            i <= n,
            n == s@.len(),
            m == pat@.len(),
            m > 0,
            out@ + replace_all(s@.skip(i as int), pat@, rep@) == replace_all(s@, pat@, rep@),
        decreases n - i,
    {
        let ghost pre = out@;
        let ghost tail = s@.skip(i as int);
        if m <= n - i && matches_at(s, i, pat) {
            out.append(rep);
            proof {
                assert(tail.subrange(0, m as int) =~= s@.subrange(i as int, i + m));
                lemma_replace_all_step_match(tail, pat@, rep@);
                assert(tail.skip(m as int) =~= s@.skip(i + m));
                assert(pre + (rep@ + replace_all(s@.skip(i + m), pat@, rep@)) =~= (pre + rep@)
                    + replace_all(s@.skip(i + m), pat@, rep@));
            }
            i += m;
        } else {
            let c = s.substring_char(i, i + 1);
            out.append(c);
            proof {
                if i + m <= n {
                    assert(!occurs_at(s@, pat@, i as int));
                    if occurs_at(tail, pat@, 0) {
                        assert(tail.subrange(0, m as int) =~= s@.subrange(i as int, i + m));
                        assert(occurs_at(s@, pat@, i as int));
                    }
                } else {
                    assert(!occurs_at(tail, pat@, 0));
                }
                lemma_replace_all_step_miss(tail, pat@, rep@);
                assert(tail[0] == s@[i as int]);
                assert(c@ =~= seq![s@[i as int]]);
                assert(tail.skip(1) =~= s@.skip(i + 1));
                assert(pre + (c@ + replace_all(s@.skip(i + 1), pat@, rep@)) =~= (pre + c@)
                    + replace_all(s@.skip(i + 1), pat@, rep@));
            }
            i += 1;
        }
    }
    proof {
        assert(s@.skip(n as int) =~= Seq::<char>::empty());
        assert(out@ + Seq::<char>::empty() =~= out@);
    }
    out
}

/// Equality of two strings, character by character.
pub fn str_eq(a: &str, b: &str) -> (r: bool)
    ensures
        r == (a@ == b@),
{
    let n = a.unicode_len();
    if n != b.unicode_len() {
        return false;
    }
    let mut i: usize = 0;
    while i < n
        invariant
            i <= n,
            n == a@.len(),
            n == b@.len(),
            forall|k: int| 0 <= k < i ==> a@[k] == b@[k],
        decreases n - i,
    {
        if a.get_char(i) != b.get_char(i) {
            return false;
        }
        i += 1;
    }
    proof {
        assert(a@ =~= b@);
    }
    true
}

/// The marker opening a theorem statement.
pub open spec fn theorem_marker() -> Seq<char> {
    "{#theorem}"@
}

/// The expansion of the theorem marker.
pub open spec fn theorem_expansion() -> Seq<char> {
    "<strong>Theorem.</strong>"@
}

/// The marker closing a collapsible proof block.
pub open spec fn proof_close_marker() -> Seq<char> {
    "{/proof}"@
}

/// The expansion of the proof-close marker: the closing fragment of the
/// collapsible block, with a trailing square symbol marking the proof's end.
pub open spec fn proof_close_expansion() -> Seq<char> {
    "</p> \n    <span style=\"float:right;\"> &#9634; </span>&nbsp;\n    </details>"@
}

/// The marker opening a collapsible proof block.
pub open spec fn proof_open_marker() -> Seq<char> {
    "{#proof}"@
}

/// The expansion of the proof-open marker: the opening fragment of the
/// collapsible block, with its summary label.
pub open spec fn proof_open_expansion() -> Seq<char> {
    "<details markdown=\"block\">\n    <summary>\n    <b>Proof</b>. (Expand to view)\n    </summary> \n    <p>"@
}

/// The whole substitution pass: the three rules of the marker table applied
/// sequentially, in this fixed order — theorem, proof-close, proof-open —
/// each rule scanning the string produced by the one before it.
pub open spec fn transform_spec(s: Seq<char>) -> Seq<char> {
    replace_all(
        replace_all(
            replace_all(s, theorem_marker(), theorem_expansion()),
            proof_close_marker(),
            proof_close_expansion(),
        ),
        proof_open_marker(),
        proof_open_expansion(),
    )
}

/// A failure of the substitution engine. The present rule set is pure literal
/// replacement and cannot fail, so no value of this type is ever produced;
/// the type keeps the failure channel that callers are written against.
#[derive(Debug)]
pub struct TransformError {}

impl TransformError {
    /// A human-readable rendering, for the caller that degrades a text unit
    /// visibly instead of dropping it.
    pub fn message(&self) -> String {
        String::from_str("placeholder expansion failed")
    }
}

/// Applies the marker table to one text, replacing every non-overlapping
/// occurrence of each marker by its expansion, rule by rule in the fixed
/// order. Always succeeds; the `Result` is the forward-compatible failure
/// channel of the engine.
pub fn replace_placeholders(content: String) -> (r: Result<String, TransformError>)
    ensures
        r matches Ok(t) && t@ == transform_spec(content@),
{
    proof {
        reveal_strlit("{#theorem}");
        reveal_strlit("{/proof}");
        reveal_strlit("{#proof}");
    }
    let s1 = replace_all_exec(content.as_str(), "{#theorem}", "<strong>Theorem.</strong>");
    let s2 = replace_all_exec(
        s1.as_str(),
        "{/proof}",
        "</p> \n    <span style=\"float:right;\"> &#9634; </span>&nbsp;\n    </details>",
    );
    let s3 = replace_all_exec(
        s2.as_str(),
        "{#proof}",
        "<details markdown=\"block\">\n    <summary>\n    <b>Proof</b>. (Expand to view)\n    </summary> \n    <p>",
    );
    Ok(s3)
}

/// Identity law: a text in which none of the three markers occurs is returned
/// unchanged by the substitution pass.
pub proof fn lemma_transform_identity(s: Seq<char>)
    requires
        !occurs(s, theorem_marker()),
        !occurs(s, proof_close_marker()),
        !occurs(s, proof_open_marker()),
    ensures
        transform_spec(s) == s,
{
    reveal_strlit("{#theorem}");
    reveal_strlit("{/proof}");
    reveal_strlit("{#proof}");
    lemma_replace_all_identity(s, theorem_marker(), theorem_expansion());
    lemma_replace_all_identity(s, proof_close_marker(), proof_close_expansion());
    lemma_replace_all_identity(s, proof_open_marker(), proof_open_expansion());
}

} // verus!
