use vstd::prelude::*;
use vstd::string::StringSliceAdditionalSpecFns;
use vstd::utf8::*;

verus! {

/// Number of bytes that UTF-8 uses for `c`.
pub open spec fn utf8_width(c: char) -> nat {
    encode_scalar(c as u32).len()
}

proof fn lemma_encode_scalar_len(c: char)
    ensures
        1 <= utf8_width(c) <= 4,
        (c as u32) < 0x80 ==> utf8_width(c) == 1,
        0x80 <= (c as u32) < 0x800 ==> utf8_width(c) == 2,
        0x800 <= (c as u32) < 0x10000 ==> utf8_width(c) == 3,
        0x10000 <= (c as u32) ==> utf8_width(c) == 4,
{
    char_is_scalar(c);
}

/// The byte length of an encoding adds up over concatenation.
pub proof fn lemma_encode_len_concat(a: Seq<char>, b: Seq<char>)
    ensures
        encode_utf8(a + b).len() == encode_utf8(a).len() + encode_utf8(b).len(),
    decreases a.len(),
{
    if a.len() == 0 {
        assert(a + b =~= b);
    } else {
        assert((a + b).drop_first() =~= a.drop_first() + b);
        lemma_encode_len_concat(a.drop_first(), b);
    }
}

/// Every codepoint takes at least one byte.
pub proof fn lemma_encode_len_lower(a: Seq<char>)
    ensures
        encode_utf8(a).len() >= a.len(),
    decreases a.len(),
{
    if a.len() > 0 {
        lemma_encode_scalar_len(a[0]);
        lemma_encode_len_lower(a.drop_first());
    }
}

/// For a suffix, fewer bytes means fewer codepoints.
pub proof fn lemma_suffix_bytes(rest: &str, s: &str)
    requires
        rest@.is_suffix_of(s@),
    ensures
        rest@.len() < s@.len() <==> rest.spec_bytes().len() < s.spec_bytes().len(),
{
    let k = s@.len() - rest@.len();
    let head = s@.subrange(0, k);
    assert(s@ =~= head + rest@);
    lemma_encode_len_concat(head, rest@);
    lemma_encode_len_lower(head);
    if head.len() == 0 {
        assert(encode_utf8(head).len() == 0);
    }
}

/// Splits off the first codepoint of `s`: the codepoint, the text of it, and the rest,
/// which starts after the codepoint's full encoded width.
pub fn split_first(s: &str) -> (r: Option<(char, &str, &str)>)
    ensures
        s@.len() == 0 ==> r is None,
        s@.len() > 0 ==> (r matches Some((c, head, rest)) && c == s@[0] && head@ == seq![c]
            && rest@ == s@.drop_first()),
{
    let mut it = s.chars();
    match it.next() {
        None => None,
        Some(c) => {
            let u = c as u32;
            let w: usize = if u < 0x80 {
                1
            } else if u < 0x800 {
                2
            } else if u < 0x10000 {
                3
            } else {
                4
            };
            proof {
                let bytes = s.spec_bytes();
                lemma_encode_scalar_len(c);
                assert(s@.len() > 0);
                assert(c == s@[0]);
                assert(bytes =~= encode_scalar(c as u32) + encode_utf8(s@.drop_first()));
                encode_utf8_first_scalar(s@);
                encode_utf8_valid_utf8(s@);
                assert(pop_first_scalar(bytes) =~= encode_utf8(s@.drop_first()));
                encode_utf8_valid_utf8(s@.drop_first());
                is_char_boundary_start_end_of_seq(pop_first_scalar(bytes));
                assert(is_char_boundary(bytes, w as int));
            }
            let (head, rest) = s.split_at(w);
            proof {
                let bytes = s.spec_bytes();
                assert(rest.spec_bytes() =~= encode_utf8(s@.drop_first()));
                encode_utf8_decode_utf8(rest@);
                encode_utf8_decode_utf8(s@.drop_first());
                assert(encode_utf8(seq![c]) =~= encode_scalar(c as u32)) by {
                    assert(seq![c].drop_first() =~= Seq::<char>::empty());
                    assert(encode_utf8(Seq::<char>::empty()) =~= Seq::<u8>::empty());
                }
                assert(head.spec_bytes() =~= encode_utf8(seq![c]));
                encode_utf8_decode_utf8(head@);
                encode_utf8_decode_utf8(seq![c]);
            }
            Some((c, head, rest))
        }
    }
}

/// Being a suffix is transitive.
pub proof fn lemma_suffix_trans(a: Seq<char>, b: Seq<char>, c: Seq<char>)
    requires
        a.is_suffix_of(b),
        b.is_suffix_of(c),
    ensures
        a.is_suffix_of(c),
{
    assert(a =~= c.subrange(c.len() - a.len(), c.len() as int));
}

/// Whether the suffix `rest` of `s` is shorter than `s`; compares byte lengths.
pub fn is_shorter(rest: &str, s: &str) -> (r: bool)
    requires
        rest@.is_suffix_of(s@),
    ensures
        r == (rest@.len() < s@.len()),
{
    proof {
        lemma_suffix_bytes(rest, s);
    }
    rest.as_bytes().len() < s.as_bytes().len()
}

} // verus!
