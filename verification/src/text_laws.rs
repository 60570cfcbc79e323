//! What holds of joining, replacing and comparing texts, whatever they hold.

use vstd::prelude::*;

use crate::text;

verus! {

/// Joining nothing gives nothing, and joining one text gives that text.
pub proof fn one_text_is_joined_to_itself(part: Seq<char>, sep: Seq<char>)
    ensures
        text::join(Seq::empty(), sep).len() == 0,
        text::join(seq![part], sep) == part,
{
}

/// Joining two lists is joining each and putting the separator between them.
pub proof fn joining_goes_by_parts(a: Seq<Seq<char>>, b: Seq<Seq<char>>, sep: Seq<char>)
    requires
        a.len() > 0,
        b.len() > 0,
    ensures
        text::join(a + b, sep) == text::join(a, sep) + sep + text::join(b, sep),
    decreases b.len(),
{
    let whole = a + b;
    assert(whole.last() == b.last());
    assert(whole.drop_last() =~= a + b.drop_last());
    if b.len() == 1 {
        assert(whole.drop_last() =~= a);
        assert(text::join(b, sep) == b[0]);
    } else {
        joining_goes_by_parts(a, b.drop_last(), sep);
        assert(text::join(whole, sep) =~= text::join(a, sep) + sep + text::join(b, sep));
    }
}

/// Replacing a character goes by parts: in each part by itself.
pub proof fn replacing_goes_by_parts(a: Seq<char>, b: Seq<char>, c: char, with: Seq<char>)
    ensures
        text::replaced(a + b, c, with) == text::replaced(a, c, with) + text::replaced(b, c, with),
    decreases b.len(),
{
    let left = text::replaced(a, c, with);
    if b.len() == 0 {
        assert(a + b =~= a);
        assert(left + text::replaced(b, c, with) =~= left);
    } else {
        assert((a + b).drop_last() =~= a + b.drop_last());
        assert((a + b).last() == b.last());
        replacing_goes_by_parts(a, b.drop_last(), c, with);
        assert(text::replaced(a + b, c, with) =~= left + text::replaced(b, c, with));
    }
}

/// The character that is replaced gives what it is replaced by, and every
/// other stays.
pub proof fn only_the_character_is_replaced(d: char, c: char, with: Seq<char>)
    ensures
        text::replaced(seq![d], c, with) == if d == c {
            with
        } else {
            seq![d]
        },
{
    let one = seq![d];
    assert(one.drop_last() =~= Seq::empty());
    assert(text::replaced(one.drop_last(), c, with) =~= Seq::empty());
    assert(text::replaced(one, c, with) =~= if d == c {
        with
    } else {
        seq![d]
    });
}

/// Whether two characters are the same up to the case of ASCII letters.
pub open spec fn same_letter(a: char, b: char) -> bool {
    ||| a == b
    ||| 'A' <= a <= 'Z' && b as u32 == a as u32 + 32
    ||| 'A' <= b <= 'Z' && a as u32 == b as u32 + 32
}

/// Two texts agree up to case if and only if they do so at every place.
pub proof fn case_is_ignored_everywhere(a: Seq<char>, b: Seq<char>)
    ensures
        text::lowered(a) == text::lowered(b) <==> a.len() == b.len() && forall|i: int|
            0 <= i < a.len() ==> #[trigger] same_letter(a[i], b[i]),
{
    let x = text::lowered(a);
    let y = text::lowered(b);
    if x == y {
        assert(x.len() == a.len() && y.len() == b.len());
        assert forall|i: int| 0 <= i < a.len() implies #[trigger] same_letter(a[i], b[i]) by {
            assert(x[i] == y[i]);
            lemma_lower(a[i], b[i]);
        }
    }
    if a.len() == b.len() && forall|i: int|
        0 <= i < a.len() ==> #[trigger] same_letter(a[i], b[i]) {
        assert forall|i: int| 0 <= i < x.len() implies x[i] == y[i] by {
            assert(same_letter(a[i], b[i]));
            lemma_lower(a[i], b[i]);
        }
        assert(x =~= y);
    }
}

/// Two characters agree in small letters if and only if they are the same up
/// to case.
proof fn lemma_lower(a: char, b: char)
    ensures
        text::ascii_lower(a) == text::ascii_lower(b) <==> same_letter(a, b),
{
}

/// Small letters are made capital and all other characters stay.
pub proof fn capitals_of_small_letters(s: Seq<char>, i: int)
    requires
        0 <= i < s.len(),
    ensures
        text::uppered(s).len() == s.len(),
        'a' <= s[i] <= 'z' ==> text::uppered(s)[i] as u32 == s[i] as u32 - 32,
        !('a' <= s[i] <= 'z') ==> text::uppered(s)[i] == s[i],
{
}

/// A text begins with any of its heads, ends with any of its tails, and holds
/// whatever stands between a head and a tail.
pub proof fn parts_of_a_text_occur_in_it(a: Seq<char>, b: Seq<char>, c: Seq<char>)
    ensures
        text::begins(a + b, a),
        text::ends(a + b, b),
        text::occurs(a + b + c, b),
        text::occurs_at(a + b + c, b, a.len() as int),
{
    assert((a + b).subrange(0, a.len() as int) =~= a);
    let n = (a + b).len() - b.len();
    assert((a + b).subrange(n, n + b.len()) =~= b);
    let whole = a + b + c;
    let k = a.len() as int;
    assert(whole.subrange(k, k + b.len()) =~= b);
    assert(text::occurs_at(whole, b, k));
}

/// What a text ends with occurs in it.
pub proof fn lemma_occurs_here(a: Seq<char>, f: Seq<char>)
    ensures
        text::occurs_at(a + f, f, a.len() as int),
{
    let n = a.len() as int;
    assert((a + f).subrange(n, n + f.len()) =~= f);
}

/// What occurs in a text occurs in it when more follows.
pub proof fn lemma_occurs_longer(x: Seq<char>, f: Seq<char>, i: int, s: Seq<char>)
    requires
        text::occurs_at(x, f, i),
    ensures
        text::occurs_at(x + s, f, i),
{
    assert((x + s).subrange(i, i + f.len()) =~= x.subrange(i, i + f.len()));
}

/// Each of three texts occurs in them, with a separator between neighbours.
pub proof fn lemma_three_parts(
    a: Seq<char>,
    b: Seq<char>,
    c: Seq<char>,
    sep: Seq<char>,
)
    ensures
        ({
            let t = a + sep + b + sep + c;
            &&& text::occurs(t, a)
            &&& text::occurs(t, b)
            &&& text::occurs(t, c)
        }),
{
    let t0 = a;
    let s1 = t0 + sep;
    let t1 = s1 + b;
    let s2 = t1 + sep;
    assert(t0.subrange(0, t0.len() as int) =~= a);
    assert(text::occurs_at(t0, a, 0));
    lemma_occurs_longer(t0, a, 0, sep);
    lemma_occurs_longer(s1, a, 0, b);
    lemma_occurs_longer(t1, a, 0, sep);
    lemma_occurs_longer(s2, a, 0, c);
    lemma_occurs_here(s1, b);
    lemma_occurs_longer(t1, b, s1.len() as int, sep);
    lemma_occurs_longer(s2, b, s1.len() as int, c);
    lemma_occurs_here(s2, c);
}

/// Each of five texts occurs in them, with a separator between neighbours.
pub proof fn lemma_five_parts(
    a: Seq<char>,
    b: Seq<char>,
    c: Seq<char>,
    d: Seq<char>,
    e: Seq<char>,
    sep: Seq<char>,
)
    ensures
        ({
            let t = a + sep + b + sep + c + sep + d + sep + e;
            &&& text::occurs(t, a)
            &&& text::occurs(t, b)
            &&& text::occurs(t, c)
            &&& text::occurs(t, d)
            &&& text::occurs(t, e)
        }),
{
    let t0 = a;
    let s1 = t0 + sep;
    let t1 = s1 + b;
    let s2 = t1 + sep;
    let t2 = s2 + c;
    let s3 = t2 + sep;
    let t3 = s3 + d;
    let s4 = t3 + sep;
    assert(t0.subrange(0, t0.len() as int) =~= a);
    assert(text::occurs_at(t0, a, 0));
    lemma_occurs_longer(t0, a, 0, sep);
    lemma_occurs_longer(s1, a, 0, b);
    lemma_occurs_longer(t1, a, 0, sep);
    lemma_occurs_longer(s2, a, 0, c);
    lemma_occurs_longer(t2, a, 0, sep);
    lemma_occurs_longer(s3, a, 0, d);
    lemma_occurs_longer(t3, a, 0, sep);
    lemma_occurs_longer(s4, a, 0, e);
    lemma_occurs_here(s1, b);
    lemma_occurs_longer(t1, b, s1.len() as int, sep);
    lemma_occurs_longer(s2, b, s1.len() as int, c);
    lemma_occurs_longer(t2, b, s1.len() as int, sep);
    lemma_occurs_longer(s3, b, s1.len() as int, d);
    lemma_occurs_longer(t3, b, s1.len() as int, sep);
    lemma_occurs_longer(s4, b, s1.len() as int, e);
    lemma_occurs_here(s2, c);
    lemma_occurs_longer(t2, c, s2.len() as int, sep);
    lemma_occurs_longer(s3, c, s2.len() as int, d);
    lemma_occurs_longer(t3, c, s2.len() as int, sep);
    lemma_occurs_longer(s4, c, s2.len() as int, e);
    lemma_occurs_here(s3, d);
    lemma_occurs_longer(t3, d, s3.len() as int, sep);
    lemma_occurs_longer(s4, d, s3.len() as int, e);
    lemma_occurs_here(s4, e);
}

/// Each of eight texts occurs in them, with a separator between neighbours.
pub proof fn lemma_eight_parts(
    a: Seq<char>,
    b: Seq<char>,
    c: Seq<char>,
    d: Seq<char>,
    e: Seq<char>,
    f: Seq<char>,
    g: Seq<char>,
    h: Seq<char>,
    sep: Seq<char>,
)
    ensures
        ({
            let t = a + sep + b + sep + c + sep + d + sep + e + sep + f + sep + g + sep + h;
            &&& text::occurs(t, a)
            &&& text::occurs(t, b)
            &&& text::occurs(t, c)
            &&& text::occurs(t, d)
            &&& text::occurs(t, e)
            &&& text::occurs(t, f)
            &&& text::occurs(t, g)
            &&& text::occurs(t, h)
        }),
{
    let t0 = a;
    let s1 = t0 + sep;
    let t1 = s1 + b;
    let s2 = t1 + sep;
    let t2 = s2 + c;
    let s3 = t2 + sep;
    let t3 = s3 + d;
    let s4 = t3 + sep;
    let t4 = s4 + e;
    let s5 = t4 + sep;
    let t5 = s5 + f;
    let s6 = t5 + sep;
    let t6 = s6 + g;
    let s7 = t6 + sep;
    assert(t0.subrange(0, t0.len() as int) =~= a);
    assert(text::occurs_at(t0, a, 0));
    lemma_occurs_longer(t0, a, 0, sep);
    lemma_occurs_longer(s1, a, 0, b);
    lemma_occurs_longer(t1, a, 0, sep);
    lemma_occurs_longer(s2, a, 0, c);
    lemma_occurs_longer(t2, a, 0, sep);
    lemma_occurs_longer(s3, a, 0, d);
    lemma_occurs_longer(t3, a, 0, sep);
    lemma_occurs_longer(s4, a, 0, e);
    lemma_occurs_longer(t4, a, 0, sep);
    lemma_occurs_longer(s5, a, 0, f);
    lemma_occurs_longer(t5, a, 0, sep);
    lemma_occurs_longer(s6, a, 0, g);
    lemma_occurs_longer(t6, a, 0, sep);
    lemma_occurs_longer(s7, a, 0, h);
    lemma_occurs_here(s1, b);
    lemma_occurs_longer(t1, b, s1.len() as int, sep);
    lemma_occurs_longer(s2, b, s1.len() as int, c);
    lemma_occurs_longer(t2, b, s1.len() as int, sep);
    lemma_occurs_longer(s3, b, s1.len() as int, d);
    lemma_occurs_longer(t3, b, s1.len() as int, sep);
    lemma_occurs_longer(s4, b, s1.len() as int, e);
    lemma_occurs_longer(t4, b, s1.len() as int, sep);
    lemma_occurs_longer(s5, b, s1.len() as int, f);
    lemma_occurs_longer(t5, b, s1.len() as int, sep);
    lemma_occurs_longer(s6, b, s1.len() as int, g);
    lemma_occurs_longer(t6, b, s1.len() as int, sep);
    lemma_occurs_longer(s7, b, s1.len() as int, h);
    lemma_occurs_here(s2, c);
    lemma_occurs_longer(t2, c, s2.len() as int, sep);
    lemma_occurs_longer(s3, c, s2.len() as int, d);
    lemma_occurs_longer(t3, c, s2.len() as int, sep);
    lemma_occurs_longer(s4, c, s2.len() as int, e);
    lemma_occurs_longer(t4, c, s2.len() as int, sep);
    lemma_occurs_longer(s5, c, s2.len() as int, f);
    lemma_occurs_longer(t5, c, s2.len() as int, sep);
    lemma_occurs_longer(s6, c, s2.len() as int, g);
    lemma_occurs_longer(t6, c, s2.len() as int, sep);
    lemma_occurs_longer(s7, c, s2.len() as int, h);
    lemma_occurs_here(s3, d);
    lemma_occurs_longer(t3, d, s3.len() as int, sep);
    lemma_occurs_longer(s4, d, s3.len() as int, e);
    lemma_occurs_longer(t4, d, s3.len() as int, sep);
    lemma_occurs_longer(s5, d, s3.len() as int, f);
    lemma_occurs_longer(t5, d, s3.len() as int, sep);
    lemma_occurs_longer(s6, d, s3.len() as int, g);
    lemma_occurs_longer(t6, d, s3.len() as int, sep);
    lemma_occurs_longer(s7, d, s3.len() as int, h);
    lemma_occurs_here(s4, e);
    lemma_occurs_longer(t4, e, s4.len() as int, sep);
    lemma_occurs_longer(s5, e, s4.len() as int, f);
    lemma_occurs_longer(t5, e, s4.len() as int, sep);
    lemma_occurs_longer(s6, e, s4.len() as int, g);
    lemma_occurs_longer(t6, e, s4.len() as int, sep);
    lemma_occurs_longer(s7, e, s4.len() as int, h);
    lemma_occurs_here(s5, f);
    lemma_occurs_longer(t5, f, s5.len() as int, sep);
    lemma_occurs_longer(s6, f, s5.len() as int, g);
    lemma_occurs_longer(t6, f, s5.len() as int, sep);
    lemma_occurs_longer(s7, f, s5.len() as int, h);
    lemma_occurs_here(s6, g);
    lemma_occurs_longer(t6, g, s6.len() as int, sep);
    lemma_occurs_longer(s7, g, s6.len() as int, h);
    lemma_occurs_here(s7, h);
}

} // verus!
