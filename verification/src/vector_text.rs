//! Splitting textual vector inputs of the form `x,y,z` or `(x,y,z)`.
//!
//! The camera parameters arrive on the command line as strings; this
//! module performs the verified structural split into the three
//! component strings.  Turning each component into a number is
//! floating-point work and stays with the embedding application.

use vstd::prelude::*;

verus! {

/// Error for a vector string that does not hold three comma-separated
/// components.
#[derive(Clone, Copy, PartialEq, Eq, Structural, Debug)]
pub enum VectorTextError {
    /// Fewer than two commas: the text cannot be split into three
    /// components.
    MissingComponents,
}

/// Whether a character survives the parenthesis stripping.
pub open spec fn is_not_parenthesis(c: char) -> bool {
    c != '(' && c != ')'
}

/// The input with every `(` and `)` removed.
pub open spec fn stripped_spec(s: Seq<char>) -> Seq<char>
    decreases s.len(),
{
    if s.len() == 0 {
        Seq::<char>::empty()
    } else if is_not_parenthesis(s.last()) {
        stripped_spec(s.drop_last()).push(s.last())
    } else {
        stripped_spec(s.drop_last())
    }
}

/// The index of the first comma at or after `from`, or the length when
/// there is none.
pub open spec fn comma_index_from(s: Seq<char>, from: int) -> int
    recommends
        0 <= from <= s.len(),
    decreases s.len() - from,
{
    if from < 0 || from >= s.len() {
        s.len() as int
    } else if s[from] == ',' {
        from
    } else {
        comma_index_from(s, from + 1)
    }
}

/// The three components of the stripped text, split at its first two
/// commas (the third component keeps any further commas).
pub open spec fn three_components_spec(stripped: Seq<char>) -> (Seq<char>, Seq<char>, Seq<char>) {
    let i = comma_index_from(stripped, 0);
    let j = comma_index_from(stripped, i + 1);
    (stripped.take(i), stripped.subrange(i + 1, j), stripped.skip(j + 1))
}

/// The stripped text holds at least two commas, so a three-way split
/// exists.
pub open spec fn has_three_components(stripped: Seq<char>) -> bool {
    comma_index_from(stripped, comma_index_from(stripped, 0) + 1) < stripped.len()
}

/// A scan that saw no comma up to `i` (exclusive), stopping at `i` on a
/// comma or at the end, has found the first comma at or after `from`.
proof fn lemma_comma_index_found(s: Seq<char>, from: int, i: int)
    requires
        0 <= from <= i <= s.len(),
        forall|m: int| from <= m < i ==> s[m] != ',',
        i < s.len() ==> s[i] == ',',
    ensures
        comma_index_from(s, from) == i,
    decreases i - from,
{
    if from < i {
        lemma_comma_index_found(s, from + 1, i);
    }
}

/// Removes every parenthesis from the input.
fn strip_parentheses(s: &str) -> (r: String)
    ensures
        r@ == stripped_spec(s@),
{
    let len: usize = s.unicode_len();
    let mut out = String::new();
    proof {
        assert(s@.take(0) =~= Seq::<char>::empty());
        assert(stripped_spec(s@.take(0)) =~= Seq::<char>::empty());
    }
    let mut i: usize = 0;
    while i < len
        invariant
            i <= len,
            len == s@.len(),
            out@ == stripped_spec(s@.take(i as int)),
        decreases len - i,
    {
        let ghost out_pre = out@;
        let c = s.get_char(i);
        if c != '(' && c != ')' {
            let piece = s.substring_char(i, i + 1);
            out.append(piece);
            proof {
                assert(piece@ =~= seq![c]);
            }
        }
        i = i + 1;
        proof {
            assert(s@.take(i as int).drop_last() =~= s@.take(i as int - 1));
            assert(s@.take(i as int).last() == c);
            if is_not_parenthesis(c) {
                assert(out@ =~= stripped_spec(s@.take(i as int - 1)).push(c));
                assert(out@ =~= stripped_spec(s@.take(i as int)));
            } else {
                assert(out@ =~= stripped_spec(s@.take(i as int)));
            }
        }
    }
    proof {
        assert(s@.take(len as int) =~= s@);
    }
    out
}

/// The index of the first comma at or after `from`, or the length when
/// there is none.
fn find_comma_from(s: &str, from: usize, len: usize) -> (r: usize)
    requires
        from <= len,
        len == s@.len(),
        len <= usize::MAX as int,
    ensures
        r == comma_index_from(s@, from as int),
        from <= r <= len,
        r < len ==> s@[r as int] == ',',
{
    let mut i: usize = from;
    while i < len && s.get_char(i) != ','
        invariant
            from <= i <= len,
            len == s@.len(),
            forall|m: int| from <= m < i ==> s@[m] != ',',
        decreases len - i,
    {
        i = i + 1;
    }
    proof {
        lemma_comma_index_found(s@, from as int, i as int);
    }
    i
}

/// Splits a vector string of the form `x,y,z` or `(x,y,z)` into its three
/// component strings: parentheses are removed, then the text is split at
/// its first two commas (any further commas stay inside the third
/// component).  Fails exactly when the stripped text holds fewer than two
/// commas.
pub fn split_str_as_three_components(value: &str) -> (r: Result<
    (String, String, String),
    VectorTextError,
>)
    ensures
        r is Ok <==> has_three_components(stripped_spec(value@)),
        r is Err ==> r->Err_0 == VectorTextError::MissingComponents,
        r is Ok ==> {
            let (a, b, c) = three_components_spec(stripped_spec(value@));
            &&& (r->Ok_0).0@ == a
            &&& (r->Ok_0).1@ == b
            &&& (r->Ok_0).2@ == c
        },
{
    let stripped = strip_parentheses(value);
    let text = stripped.as_str();
    let len: usize = text.unicode_len();

    let first = find_comma_from(text, 0, len);
    if first >= len {
        return Err(VectorTextError::MissingComponents);
    }
    let second = find_comma_from(text, first + 1, len);
    if second >= len {
        return Err(VectorTextError::MissingComponents);
    }

    let x_component = text.substring_char(0, first).to_owned();
    let y_component = text.substring_char(first + 1, second).to_owned();
    let z_component = text.substring_char(second + 1, len).to_owned();
    proof {
        assert(x_component@ =~= text@.take(first as int));
        assert(z_component@ =~= text@.skip(second as int + 1));
    }
    Ok((x_component, y_component, z_component))
}

} // verus!
