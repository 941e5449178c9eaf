//! Line-ending normalization and plain string comparison.
//!
//! Reference content may be committed on one platform and compared on
//! another, so every line terminator (CRLF, lone CR, lone LF) is mapped to a
//! single LF before any comparison. Normalization is total and idempotent,
//! and it never reorders or alters non-terminator characters.

use vstd::prelude::*;

verus! {

/// The canonical form of a text: every CRLF pair and every lone CR becomes
/// a single LF; all other characters are kept in order.
pub open spec fn norm_spec(s: Seq<char>) -> Seq<char>
    decreases s.len(),
{
    if s.len() == 0 {
        Seq::empty()
    } else if s[0] == '\r' {
        if s.len() >= 2 && s[1] == '\n' {
            seq!['\n'] + norm_spec(s.skip(2))
        } else {
            seq!['\n'] + norm_spec(s.skip(1))
        }
    } else {
        seq![s[0]] + norm_spec(s.skip(1))
    }
}

/// A text is in canonical form exactly when it contains no CR at all.
pub open spec fn is_normalized(s: Seq<char>) -> bool {
    forall|i: int| 0 <= i < s.len() ==> s[i] != '\r'
}

/// Normalization output never contains a CR.
pub proof fn lemma_norm_no_cr(s: Seq<char>)
    ensures
        is_normalized(norm_spec(s)),
    decreases s.len(),
{
    if s.len() == 0 {
    } else if s[0] == '\r' {
        if s.len() >= 2 && s[1] == '\n' {
            lemma_norm_no_cr(s.skip(2));
        } else {
            lemma_norm_no_cr(s.skip(1));
        }
    } else {
        lemma_norm_no_cr(s.skip(1));
    }
}

/// Normalization leaves an already-canonical text unchanged.
pub proof fn lemma_norm_of_normalized(s: Seq<char>)
    requires
        is_normalized(s),
    ensures
        norm_spec(s) == s,
    decreases s.len(),
{
    if s.len() == 0 {
        assert(norm_spec(s) =~= s);
    } else {
        assert(s[0] != '\r');
        assert(is_normalized(s.skip(1)));
        lemma_norm_of_normalized(s.skip(1));
        assert(seq![s[0]] + s.skip(1) =~= s);
    }
}

/// Normalizing twice is the same as normalizing once.
pub proof fn lemma_norm_idempotent(s: Seq<char>)
    ensures
        norm_spec(norm_spec(s)) == norm_spec(s),
{
    lemma_norm_no_cr(s);
    lemma_norm_of_normalized(norm_spec(s));
}

/// Canonicalizes the line endings of `s`: CRLF and lone CR become LF.
pub fn normalize(s: &str) -> (r: String)
    ensures
        r@ == norm_spec(s@),
{
    let n = s.unicode_len();
    let mut r = String::new();
    let mut i: usize = 0;
    proof {
        assert(s@.skip(0) =~= s@);
        assert(Seq::<char>::empty() + norm_spec(s@) =~= norm_spec(s@));
    }
    while i < n
        invariant
            s@.len() == n as int,
            i <= n,
            norm_spec(s@) == r@ + norm_spec(s@.skip(i as int)),
        decreases n - i,
    {
        let ghost rest = s@.skip(i as int);
        let ghost r0 = r@;
        proof {
            assert(rest.len() > 0);
            assert(rest[0] == s@[i as int]);
        }
        let c = s.get_char(i);
        if c == '\r' {
            r.append("\n");
            proof {
                reveal_strlit("\n");
                assert(r@ =~= r0 + seq!['\n']);
            }
            if i + 1 < n && s.get_char(i + 1) == '\n' {
                proof {
                    assert(rest.len() >= 2 && rest[1] == s@[i + 1]);
                    assert(norm_spec(rest) == seq!['\n'] + norm_spec(rest.skip(2)));
                    assert(rest.skip(2) =~= s@.skip(i + 2));
                    assert(r0 + norm_spec(rest) =~= r@ + norm_spec(s@.skip(i + 2)));
                }
                i = i + 2;
            } else {
                proof {
                    assert(!(rest.len() >= 2 && rest[1] == '\n'));
                    assert(norm_spec(rest) == seq!['\n'] + norm_spec(rest.skip(1)));
                    assert(rest.skip(1) =~= s@.skip(i + 1));
                    assert(r0 + norm_spec(rest) =~= r@ + norm_spec(s@.skip(i + 1)));
                }
                i = i + 1;
            }
        } else {
            let piece = s.substring_char(i, i + 1);
            proof {
                assert(piece@ =~= seq![s@[i as int]]);
            }
            r.append(piece);
            proof {
                assert(r@ =~= r0 + seq![s@[i as int]]);
                assert(norm_spec(rest) == seq![rest[0]] + norm_spec(rest.skip(1)));
                assert(rest.skip(1) =~= s@.skip(i + 1));
                assert(r0 + norm_spec(rest) =~= r@ + norm_spec(s@.skip(i + 1)));
            }
            i = i + 1;
        }
    }
    proof {
        assert(s@.skip(n as int) =~= Seq::<char>::empty());
        assert(r@ + norm_spec(Seq::<char>::empty()) =~= r@);
    }
    r
}

/// Compares two string slices character by character.
pub fn str_eq(a: &str, b: &str) -> (r: bool)
    ensures
        r == (a@ == b@),
{
    let na = a.unicode_len();
    let nb = b.unicode_len();
    if na != nb {
        return false;
    }
    let mut i: usize = 0;
    while i < na
        invariant
            a@.len() == na as int,
            b@.len() == na as int,
            i <= na,
            forall|j: int| 0 <= j < i ==> a@[j] == b@[j],
        decreases na - i,
    {
        if a.get_char(i) != b.get_char(i) {
            return false;
        }
        i = i + 1;
    }
    proof {
        assert(a@ =~= b@);
    }
    true
}

} // verus!
