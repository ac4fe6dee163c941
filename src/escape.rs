//! Escaping of byte strings for use as XML character data.

use vstd::prelude::*;

verus! {

/// The byte `&`.
pub const AMPERSAND: u8 = 38;

/// The byte `<`.
pub const LESS_THAN: u8 = 60;

/// What one input byte becomes: `&` turns into `&amp;`, `<` into `&lt;`,
/// every other byte stays as it is.
pub open spec fn escaped_byte(b: u8) -> Seq<u8> {
    if b == AMPERSAND {
        seq![38u8, 97u8, 109u8, 112u8, 59u8]
    } else if b == LESS_THAN {
        seq![38u8, 108u8, 116u8, 59u8]
    } else {
        seq![b]
    }
}

/// The escaped form of a whole byte string, byte by byte.
pub open spec fn escaped(s: Seq<u8>) -> Seq<u8>
    decreases s.len(),
{
    if s.len() == 0 {
        Seq::empty()
    } else {
        escaped(s.drop_last()) + escaped_byte(s.last())
    }
}

/// Appends the escaped form of `s` to `out`.
///
/// Escaping works on bytes: `s` need not be valid UTF-8, and bytes other
/// than `&` and `<` (including `>`) pass through unchanged.
pub fn escape_xml(s: &[u8], out: &mut Vec<u8>)
    ensures
        final(out)@ == old(out)@ + escaped(s@),
{
    let ghost start = old(out)@;
    let mut i: usize = 0;
    while i < s.len()
        invariant
            i <= s@.len(),
            out@ == start + escaped(s@.subrange(0, i as int)),
        decreases s@.len() - i,
    {
        let b = s[i];
        proof {
            let next = s@.subrange(0, i as int + 1);
            assert(next.drop_last() =~= s@.subrange(0, i as int));
        }
        if b == AMPERSAND {
            out.push(38u8);
            out.push(97u8);
            out.push(109u8);
            out.push(112u8);
            out.push(59u8);
        } else if b == LESS_THAN {
            out.push(38u8);
            out.push(108u8);
            out.push(116u8);
            out.push(59u8);
        } else {
            out.push(b);
        }
        assert(out@ =~= start + escaped(s@.subrange(0, i as int + 1)));
        i = i + 1;
    }
    assert(s@.subrange(0, s@.len() as int) =~= s@);
}

/// Holds where an entity, `&amp;` or `&lt;`, starts at index `i` of `t`.
pub open spec fn entity_at(t: Seq<u8>, i: int) -> bool {
    ||| i + 5 <= t.len() && t.subrange(i, i + 5) == escaped_byte(AMPERSAND)
    ||| i + 4 <= t.len() && t.subrange(i, i + 4) == escaped_byte(LESS_THAN)
}

/// Holds where `t` is safe as XML character data: no `<` in it, and each
/// `&` in it starts an entity.
pub open spec fn is_xml_text(t: Seq<u8>) -> bool {
    forall|i: int|
        0 <= i < t.len() ==> #[trigger] t[i] != LESS_THAN && (t[i] == AMPERSAND ==> entity_at(t, i))
}

/// Holds where `s` has neither `&` nor `<` in it.
pub open spec fn has_no_markup(s: Seq<u8>) -> bool {
    forall|i: int| 0 <= i < s.len() ==> #[trigger] s[i] != AMPERSAND && s[i] != LESS_THAN
}

proof fn lemma_concat_xml_text(a: Seq<u8>, b: Seq<u8>)
    requires
        is_xml_text(a),
        is_xml_text(b),
    ensures
        is_xml_text(a + b),
{
    let t = a + b;
    assert forall|i: int| 0 <= i < t.len() implies #[trigger] t[i] != LESS_THAN && (t[i]
        == AMPERSAND ==> entity_at(t, i)) by {
        if i < a.len() {
            assert(t[i] == a[i]);
            if a[i] == AMPERSAND {
                assert(entity_at(a, i));
                if i + 5 <= a.len() && a.subrange(i, i + 5) == escaped_byte(AMPERSAND) {
                    assert(t.subrange(i, i + 5) =~= a.subrange(i, i + 5));
                } else {
                    assert(t.subrange(i, i + 4) =~= a.subrange(i, i + 4));
                }
            }
        } else {
            let j = i - a.len();
            assert(t[i] == b[j]);
            if b[j] == AMPERSAND {
                assert(entity_at(b, j));
                if j + 5 <= b.len() && b.subrange(j, j + 5) == escaped_byte(AMPERSAND) {
                    assert(t.subrange(i, i + 5) =~= b.subrange(j, j + 5));
                } else {
                    assert(t.subrange(i, i + 4) =~= b.subrange(j, j + 4));
                }
            }
        }
    }
}

/// Escaping leaves no markup behind: the result holds no `<`, and every
/// `&` in it starts `&amp;` or `&lt;`. Input without `&` and `<` comes out
/// unchanged.
pub proof fn lemma_escaped_is_xml_text(s: Seq<u8>)
    ensures
        is_xml_text(escaped(s)),
        has_no_markup(s) ==> escaped(s) == s,
    decreases s.len(),
{
    if s.len() > 0 {
        let init = s.drop_last();
        lemma_escaped_is_xml_text(init);
        let tail = escaped_byte(s.last());
        assert(is_xml_text(tail)) by {
            if s.last() == AMPERSAND {
                assert(tail.subrange(0, 5) =~= tail);
            } else if s.last() == LESS_THAN {
                assert(tail.subrange(0, 4) =~= tail);
            }
            assert forall|i: int| 0 <= i < tail.len() implies #[trigger] tail[i] != LESS_THAN && (
            tail[i] == AMPERSAND ==> entity_at(tail, i)) by {}
        }
        lemma_concat_xml_text(escaped(init), tail);
        if has_no_markup(s) {
            assert(has_no_markup(init)) by {
                assert forall|i: int| 0 <= i < init.len() implies #[trigger] init[i] != AMPERSAND
                    && init[i] != LESS_THAN by {
                    assert(init[i] == s[i]);
                }
            }
            assert(s.last() == s[s.len() - 1]);
            assert(escaped(s) =~= s);
        }
    }
}

} // verus!
