//! Character-level helpers the dashboard core is specified with: extracting
//! the characters of a string, lexicographic comparison of names, substring
//! containment for the filter, decimal rendering of pull-request numbers,
//! and a trusted wrapper around case folding.

use vstd::prelude::*;

verus! {

/// Lexicographic (code-point) order on character sequences: the order the
/// store keeps repository names in.
pub open spec fn lex_lt(a: Seq<char>, b: Seq<char>) -> bool
    decreases a.len(),
{
    if b.len() == 0 {
        false
    } else if a.len() == 0 {
        true
    } else if a[0] != b[0] {
        (a[0] as u32) < (b[0] as u32)
    } else {
        lex_lt(a.drop_first(), b.drop_first())
    }
}

/// Distinct characters have distinct code points.
proof fn lemma_char_cast_distinct(x: char, y: char)
    requires
        x != y,
    ensures
        (x as u32) != (y as u32),
{
    vstd::utf8::char_u32_cast(x, x as u32);
    vstd::utf8::char_u32_cast(y, y as u32);
}

/// `lex_lt` is irreflexive.
pub proof fn lemma_lex_irrefl(a: Seq<char>)
    ensures
        !lex_lt(a, a),
    decreases a.len(),
{
    if a.len() > 0 {
        lemma_lex_irrefl(a.drop_first());
    }
}

/// Any two sequences are ordered one way or the other, or are equal.
pub proof fn lemma_lex_connected(a: Seq<char>, b: Seq<char>)
    ensures
        lex_lt(a, b) || lex_lt(b, a) || a == b,
    decreases a.len(),
{
    if a.len() == 0 && b.len() == 0 {
        assert(a =~= b);
    } else if a.len() == 0 || b.len() == 0 {
        assert(lex_lt(a, b) || lex_lt(b, a));
    } else if a[0] != b[0] {
        lemma_char_cast_distinct(a[0], b[0]);
        if (a[0] as u32) < (b[0] as u32) {
            assert(lex_lt(a, b));
        } else {
            assert((b[0] as u32) < (a[0] as u32));
            assert(lex_lt(b, a));
        }
    } else if a.len() > 0 && b.len() > 0 && a[0] == b[0] {
        lemma_lex_connected(a.drop_first(), b.drop_first());
        if a.drop_first() == b.drop_first() {
            assert(a.drop_first().len() == a.len() - 1);
            assert(b.drop_first().len() == b.len() - 1);
            assert(a.len() == b.len());
            assert forall|k: int| 0 <= k < a.len() implies a[k] == b[k] by {
                if k == 0 {
                    assert(a[0] == b[0]);
                } else {
                    assert(a.drop_first()[k - 1] == a[k]);
                    assert(b.drop_first()[k - 1] == b[k]);
                    assert(a.drop_first()[k - 1] == b.drop_first()[k - 1]);
                }
            }
            assert(a =~= b);
        }
    }
}

/// `lex_lt` is transitive.
pub proof fn lemma_lex_trans(a: Seq<char>, b: Seq<char>, c: Seq<char>)
    requires
        lex_lt(a, b),
        lex_lt(b, c),
    ensures
        lex_lt(a, c),
    decreases a.len() + b.len() + c.len(),
{
    if a.len() > 0 && b.len() > 0 && c.len() > 0 && a[0] == b[0] && b[0] == c[0] {
        lemma_lex_trans(a.drop_first(), b.drop_first(), c.drop_first());
    }
}

/// Equal prefixes do not decide the order: comparison continues on the rest.
pub proof fn lemma_lex_common_prefix(a: Seq<char>, b: Seq<char>, i: int)
    requires
        0 <= i <= a.len(),
        i <= b.len(),
        a.subrange(0, i) == b.subrange(0, i),
    ensures
        lex_lt(a, b) == lex_lt(a.subrange(i, a.len() as int), b.subrange(i, b.len() as int)),
    decreases i,
{
    if i == 0 {
        assert(a.subrange(0, a.len() as int) =~= a);
        assert(b.subrange(0, b.len() as int) =~= b);
    } else {
        assert(a[0] == a.subrange(0, i)[0]);
        assert(b[0] == b.subrange(0, i)[0]);
        assert(a.drop_first().subrange(0, i - 1) =~= b.drop_first().subrange(0, i - 1)) by {
            assert forall|k: int| 0 <= k < i - 1 implies a.drop_first()[k] == b.drop_first()[k] by {
                assert(a.subrange(0, i)[k + 1] == b.subrange(0, i)[k + 1]);
                assert(a.subrange(0, i)[k + 1] == a[k + 1]);
                assert(b.subrange(0, i)[k + 1] == b[k + 1]);
                assert(a.drop_first()[k] == a[k + 1]);
                assert(b.drop_first()[k] == b[k + 1]);
            }
        }
        lemma_lex_common_prefix(a.drop_first(), b.drop_first(), i - 1);
        assert(a.drop_first().subrange(i - 1, a.drop_first().len() as int) =~= a.subrange(
            i,
            a.len() as int,
        ));
        assert(b.drop_first().subrange(i - 1, b.drop_first().len() as int) =~= b.subrange(
            i,
            b.len() as int,
        ));
    }
}

/// Extracts the characters of a string, so that the filter and the order
/// can work on plain vectors.
pub fn to_chars(s: &str) -> (r: Vec<char>)
    ensures
        r@ == s@,
{
    let n: usize = s.unicode_len();
    let mut r: Vec<char> = Vec::new();
    let mut i: usize = 0;
    while i < n
        invariant
            i <= n,
            n == s@.len(),
            r@ == s@.take(i as int),
        decreases n - i,
    {
        let c = s.get_char(i);
        r.push(c);
        assert(r@ =~= s@.take(i + 1));
        i = i + 1;
    }
    assert(r@ =~= s@);
    r
}

/// Decides the lexicographic order of two strings.
pub fn str_lt(a: &str, b: &str) -> (r: bool)
    ensures
        r == lex_lt(a@, b@),
{
    let alen: usize = a.unicode_len();
    let blen: usize = b.unicode_len();
    let mut i: usize = 0;
    while i < alen && i < blen
        invariant
            i <= alen,
            i <= blen,
            alen == a@.len(),
            blen == b@.len(),
            a@.subrange(0, i as int) == b@.subrange(0, i as int),
        decreases alen - i,
    {
        let ca = a.get_char(i);
        let cb = b.get_char(i);
        if ca != cb {
            proof {
                lemma_lex_common_prefix(a@, b@, i as int);
                assert(a@.subrange(i as int, alen as int)[0] == ca);
                assert(b@.subrange(i as int, blen as int)[0] == cb);
            }
            return (ca as u32) < (cb as u32);
        }
        assert(a@.subrange(0, i + 1) =~= b@.subrange(0, i + 1));
        i = i + 1;
    }
    proof {
        lemma_lex_common_prefix(a@, b@, i as int);
        if i == alen {
            assert(a@.subrange(i as int, alen as int) =~= Seq::<char>::empty());
        } else {
            assert(b@.subrange(i as int, blen as int) =~= Seq::<char>::empty());
        }
    }
    alen < blen
}

/// Whether two strings hold the same characters.
pub fn str_eq(a: &str, b: &str) -> (r: bool)
    ensures
        r == (a@ == b@),
{
    let alen: usize = a.unicode_len();
    let blen: usize = b.unicode_len();
    if alen != blen {
        return false;
    }
    let mut i: usize = 0;
    while i < alen
        invariant
            i <= alen,
            alen == a@.len(),
            alen == b@.len(),
            forall|k: int| 0 <= k < i ==> a@[k] == b@[k],
        decreases alen - i,
    {
        if a.get_char(i) != b.get_char(i) {
            return false;
        }
        i = i + 1;
    }
    proof {
        assert(a@ =~= b@);
    }
    true
}

/// `needle` occurs contiguously somewhere in `hay`.
pub open spec fn contains_seq(hay: Seq<char>, needle: Seq<char>) -> bool {
    exists|i: int|
        0 <= i && i + needle.len() <= hay.len() && #[trigger] hay.subrange(
            i,
            i + needle.len() as int,
        ) == needle
}

/// Decides substring containment over character vectors.
pub fn contains_chars(hay: &Vec<char>, needle: &Vec<char>) -> (r: bool)
    ensures
        r == contains_seq(hay@, needle@),
{
    let nlen: usize = needle.len();
    let hlen: usize = hay.len();
    if nlen > hlen {
        return false;
    }
    if nlen == 0 {
        proof {
            assert(hay@.subrange(0, 0 + needle@.len() as int) =~= needle@);
        }
        return true;
    }
    let mut i: usize = 0;
    while i <= hlen - nlen
        invariant
            0 < nlen <= hlen,
            nlen == needle@.len(),
            hlen == hay@.len(),
            i <= hlen - nlen + 1,
            forall|k: int|
                0 <= k < i ==> #[trigger] hay@.subrange(k, k + nlen as int) != needle@,
        decreases hlen - nlen + 1 - i,
    {
        let mut j: usize = 0;
        let mut mismatch: bool = false;
        while j < nlen
            invariant
                j <= nlen,
                nlen == needle@.len(),
                hlen == hay@.len(),
                i + nlen <= hlen,
                !mismatch ==> forall|t: int| 0 <= t < j ==> hay@[i + t] == needle@[t],
                mismatch ==> hay@.subrange(i as int, i + nlen as int) != needle@,
            decreases nlen - j,
        {
            if hay[i + j] != needle[j] {
                proof {
                    assert(hay@.subrange(i as int, i + nlen as int)[j as int] == hay@[i + j]);
                }
                mismatch = true;
                j = nlen;
            } else {
                j = j + 1;
            }
        }
        if !mismatch {
            proof {
                assert(hay@.subrange(i as int, i + nlen as int) =~= needle@);
            }
            return true;
        }
        i = i + 1;
    }
    proof {
        assert forall|k: int| 0 <= k && k + needle@.len() <= hay@.len() implies #[trigger] hay@.subrange(
            k,
            k + needle@.len() as int,
        ) != needle@ by {
            assert(k < i);
        }
    }
    false
}

/// The character a decimal digit prints as.
pub open spec fn digit_char(d: int) -> char {
    if d == 0 {
        '0'
    } else if d == 1 {
        '1'
    } else if d == 2 {
        '2'
    } else if d == 3 {
        '3'
    } else if d == 4 {
        '4'
    } else if d == 5 {
        '5'
    } else if d == 6 {
        '6'
    } else if d == 7 {
        '7'
    } else if d == 8 {
        '8'
    } else {
        '9'
    }
}

/// The decimal rendering of a number, most significant digit first.
pub open spec fn dec_digits(n: nat) -> Seq<char>
    decreases n,
{
    if n < 10 {
        seq![digit_char(n as int)]
    } else {
        dec_digits(n / 10) + seq![digit_char((n % 10) as int)]
    }
}

fn push_digit(s: &mut String, d: u64)
    requires
        d < 10,
    ensures
        final(s)@ == old(s)@ + seq![digit_char(d as int)],
{
    if d == 0 {
        proof {
            reveal_strlit("0");
        }
        s.append("0");
    } else if d == 1 {
        proof {
            reveal_strlit("1");
        }
        s.append("1");
    } else if d == 2 {
        proof {
            reveal_strlit("2");
        }
        s.append("2");
    } else if d == 3 {
        proof {
            reveal_strlit("3");
        }
        s.append("3");
    } else if d == 4 {
        proof {
            reveal_strlit("4");
        }
        s.append("4");
    } else if d == 5 {
        proof {
            reveal_strlit("5");
        }
        s.append("5");
    } else if d == 6 {
        proof {
            reveal_strlit("6");
        }
        s.append("6");
    } else if d == 7 {
        proof {
            reveal_strlit("7");
        }
        s.append("7");
    } else if d == 8 {
        proof {
            reveal_strlit("8");
        }
        s.append("8");
    } else {
        proof {
            reveal_strlit("9");
        }
        s.append("9");
    }
    assert(s@ =~= old(s)@ + seq![digit_char(d as int)]);
}

/// Renders a pull-request number in decimal, the form its identifier takes.
pub fn u64_to_dec(n: u64) -> (r: String)
    ensures
        r@ == dec_digits(n as nat),
    decreases n,
{
    if n < 10 {
        let mut s = String::new();
        push_digit(&mut s, n);
        assert(s@ =~= dec_digits(n as nat));
        s
    } else {
        assert(n / 10 < n) by (nonlinear_arith)
            requires
                n >= 10,
        ;
        let mut s = u64_to_dec(n / 10);
        push_digit(&mut s, n % 10);
        assert(s@ =~= dec_digits(n as nat)) by {
            assert((n / 10) as nat == (n as nat) / 10);
            assert((n % 10) as nat == (n as nat) % 10);
        }
        s
    }
}

/// What case folding returns for a given sequence of characters; the result
/// depends on the characters alone.
pub uninterp spec fn lower_of(s: Seq<char>) -> Seq<char>;

/// Relies on str::to_lowercase: returns the lowercase equivalent of the
/// string, a function of its characters alone; an empty string stays empty.
#[verifier::external_body]
pub(crate) fn lowercase(s: &str) -> (r: String)
    ensures
        r@ == lower_of(s@),
        s@.len() == 0 ==> r@.len() == 0,
{
    s.to_lowercase()
}

} // verus!
