//! Composition of one display frame out of the texts the individual
//! entry renderers produced, in stacking order.
//!
//! A single line break separates two texts exactly when the immediately
//! preceding renderer produced non-empty text and the current one did
//! too; an empty text contributes nothing and never forces a break.

use vstd::prelude::*;

verus! {

/// Relies on `alloc::string::String::push_str`: appends the given string
/// slice onto the end of the string.
pub assume_specification[ String::push_str ](s: &mut String, other: &str)
    ensures
        final(s)@ == old(s)@ + other@,
;

/// Relies on `alloc::string::String::push`: appends the given character
/// onto the end of the string.
pub assume_specification[ String::push ](s: &mut String, ch: char)
    ensures
        final(s)@ == old(s)@.push(ch),
;

/// The frame text that the texts in `rest` produce when the renderer
/// immediately before them produced non-empty text iff `prev_nonempty`:
/// each non-empty text is preceded by one line break when its direct
/// predecessor was non-empty too.
pub open spec fn joined_after(rest: Seq<Seq<char>>, prev_nonempty: bool) -> Seq<char>
    decreases rest.len(),
{
    if rest.len() == 0 {
        Seq::empty()
    } else {
        let head = rest.first();
        let sep: Seq<char> = if prev_nonempty && head.len() > 0 {
            seq!['\n']
        } else {
            Seq::empty()
        };
        sep + head + joined_after(rest.drop_first(), head.len() > 0)
    }
}

/// The complete frame text produced by a sequence of renderer texts.
pub open spec fn joined(texts: Seq<Seq<char>>) -> Seq<char> {
    joined_after(texts, false)
}

/// Whether the last renderer of `texts` produced non-empty text; before
/// any renderer ran, the answer is `prev_nonempty`.
pub open spec fn last_nonempty(texts: Seq<Seq<char>>, prev_nonempty: bool) -> bool {
    if texts.len() == 0 {
        prev_nonempty
    } else {
        texts.last().len() > 0
    }
}

/// Appending one more renderer text extends the frame at its end: with a
/// single separating line break when both the directly preceding text and
/// the new one are non-empty, and with no break otherwise.
pub proof fn lemma_joined_after_push(texts: Seq<Seq<char>>, prev_nonempty: bool, t: Seq<char>)
    ensures
        joined_after(texts.push(t), prev_nonempty) == if last_nonempty(texts, prev_nonempty)
            && t.len() > 0 {
            joined_after(texts, prev_nonempty) + seq!['\n'] + t
        } else {
            joined_after(texts, prev_nonempty) + t
        },
    decreases texts.len(),
{
    if texts.len() == 0 {
        assert(texts.push(t).drop_first() =~= Seq::<Seq<char>>::empty());
        assert(texts.push(t).first() == t);
        assert(joined_after(Seq::<Seq<char>>::empty(), t.len() > 0) == Seq::<char>::empty());
        assert(joined_after(Seq::<Seq<char>>::empty(), prev_nonempty) == Seq::<char>::empty());
        if prev_nonempty && t.len() > 0 {
            assert(joined_after(texts.push(t), prev_nonempty) =~= seq!['\n'] + t);
            assert(joined_after(texts, prev_nonempty) + seq!['\n'] + t =~= seq!['\n'] + t);
        } else {
            assert(joined_after(texts.push(t), prev_nonempty) =~= t);
            assert(joined_after(texts, prev_nonempty) + t =~= t);
        }
    } else {
        let head = texts.first();
        lemma_joined_after_push(texts.drop_first(), head.len() > 0, t);
        assert(texts.push(t).first() == head);
        assert(texts.push(t).drop_first() =~= texts.drop_first().push(t));
        assert(last_nonempty(texts.drop_first(), head.len() > 0) == last_nonempty(
            texts,
            prev_nonempty,
        ));
        let sep: Seq<char> = if prev_nonempty && head.len() > 0 {
            seq!['\n']
        } else {
            Seq::empty()
        };
        if last_nonempty(texts, prev_nonempty) && t.len() > 0 {
            assert(sep + head + (joined_after(texts.drop_first(), head.len() > 0) + seq!['\n']
                + t) =~= (sep + head + joined_after(texts.drop_first(), head.len() > 0))
                + seq!['\n'] + t);
        } else {
            assert(sep + head + (joined_after(texts.drop_first(), head.len() > 0) + t) =~= (sep
                + head + joined_after(texts.drop_first(), head.len() > 0)) + t);
        }
    }
}

/// Two adjacent non-empty renderer texts are separated by exactly one
/// line break in the composed frame; an empty renderer text contributes
/// nothing to the frame, neither characters nor a leading or trailing
/// break.
pub proof fn lemma_separator_discipline(texts: Seq<Seq<char>>, t: Seq<char>)
    ensures
        texts.len() > 0 && texts.last().len() > 0 && t.len() > 0 ==> joined(texts.push(t))
            == joined(texts) + seq!['\n'] + t,
        (texts.len() == 0 || texts.last().len() == 0) ==> joined(texts.push(t)) == joined(texts)
            + t,
        t.len() == 0 ==> joined(texts.push(t)) == joined(texts),
{
    lemma_joined_after_push(texts, false, t);
    if t.len() == 0 {
        assert(joined(texts) + t =~= joined(texts));
    }
}

/// Composes the frame for one tick out of the texts the entry renderers
/// produced, in stacking order.
pub fn compose_frame(pieces: &Vec<String>) -> (r: String)
    ensures
        r@ == joined(pieces.deep_view()),
{
    let ghost texts: Seq<Seq<char>> = pieces.deep_view();
    let mut text = String::new();
    let mut should_new_line_next = false;
    let mut i: usize = 0;
    proof {
        assert(texts.take(0) =~= Seq::<Seq<char>>::empty());
    }
    while i < pieces.len()
        invariant
            0 <= i <= pieces@.len(),
            texts == pieces.deep_view(),
            texts.len() == pieces@.len(),
            forall|j: int| 0 <= j < pieces@.len() ==> texts[j] == pieces@[j]@,
            text@ == joined_after(texts.take(i as int), false),
            should_new_line_next == last_nonempty(texts.take(i as int), false),
        decreases pieces@.len() - i,
    {
        let new_text = &pieces[i];
        if should_new_line_next && !new_text.as_str().is_empty() {
            text.push('\n');
        }
        should_new_line_next = !new_text.as_str().is_empty();
        text.push_str(new_text.as_str());
        proof {
            lemma_joined_after_push(texts.take(i as int), false, texts[i as int]);
            assert(texts.take(i + 1) =~= texts.take(i as int).push(texts[i as int]));
            if last_nonempty(texts.take(i as int), false) && texts[i as int].len() > 0 {
                assert(text@ == joined_after(texts.take(i as int), false) + seq!['\n']
                    + texts[i as int]);
            } else {
                assert(text@ == joined_after(texts.take(i as int), false) + texts[i as int]);
            }
        }
        i += 1;
    }
    proof {
        assert(texts.take(texts.len() as int) =~= texts);
    }
    text
}

} // verus!
