//! Turning the reflection-prompt note into plain instructional text: the
//! frontmatter block and the title heading are dropped.
use vstd::prelude::*;
use crate::text::{
    chars_eq, chars_of, concat, lemma_concat_raw_lines, lemma_trim_line_ending, line_content,
    line_text, raw_lines_of, rejoin, rejoin_lines, split_lines, string_of, trim, trim_chars,
    views_of,
};

verus! {

/// A frontmatter fence: a line of three hyphens, whitespace around them aside.
pub open spec fn is_fence(l: Seq<char>) -> bool {
    trim(line_text(l)) == seq!['-', '-', '-']
}

/// A top-level markdown heading line: `# ` at its very start.
pub open spec fn is_title(l: Seq<char>) -> bool {
    let t = line_text(l);
    t.len() >= 2 && t[0] == '#' && t[1] == ' '
}

/// The index of the first fence among `ls[j..]`, or `ls.len()` if there is none.
pub open spec fn next_fence(ls: Seq<Seq<char>>, j: int) -> int
    decreases ls.len() - j,
{
    if j >= ls.len() {
        ls.len() as int
    } else if is_fence(ls[j]) {
        j
    } else {
        next_fence(ls, j + 1)
    }
}

/// Where the body begins: after the closing fence when the first line opens a
/// frontmatter block (nowhere, if it is never closed), else at the first line.
pub open spec fn body_start(ls: Seq<Seq<char>>) -> int {
    if ls.len() > 0 && is_fence(ls[0]) {
        let k = next_fence(ls, 1);
        if k < ls.len() {
            k + 1
        } else {
            ls.len() as int
        }
    } else {
        0
    }
}

/// `ls` without its first title line.
pub open spec fn drop_first_title(ls: Seq<Seq<char>>) -> Seq<Seq<char>>
    decreases ls.len(),
{
    if ls.len() == 0 {
        ls
    } else if is_title(ls[0]) {
        ls.drop_first()
    } else {
        seq![ls[0]] + drop_first_title(ls.drop_first())
    }
}

/// The lines kept of a note whose lines, with their endings, are `ls`.
pub open spec fn body_lines(ls: Seq<Seq<char>>) -> Seq<Seq<char>> {
    drop_first_title(ls.subrange(body_start(ls), ls.len() as int))
}

/// The note `s` without frontmatter and title: the kept lines in order, each
/// with its own line ending but for the last.
pub open spec fn stripped(s: Seq<char>) -> Seq<char> {
    rejoin(body_lines(raw_lines_of(s)))
}

/// The prompt text made of the note `s`, if anything is left of it.
pub open spec fn prompt_text(s: Seq<char>) -> Option<Seq<char>> {
    let t = trim(stripped(s));
    if t.len() == 0 {
        None
    } else {
        Some(t)
    }
}

fn fence_line(l: &Vec<char>) -> (r: bool)
    ensures
        r == is_fence(l@),
{
    let t = trim_chars(&line_content(l));
    let fence = vec!['-', '-', '-'];
    assert(fence@ =~= seq!['-', '-', '-']);
    chars_eq(&t, &fence)
}

fn title_line(l: &Vec<char>) -> (r: bool)
    ensures
        r == is_title(l@),
{
    let t = line_content(l);
    t.len() >= 2 && t[0] == '#' && t[1] == ' '
}

fn body_start_of(ls: &Vec<Vec<char>>) -> (r: usize)
    ensures
        r == body_start(views_of(ls@)),
{
    let ghost v = views_of(ls@);
    if ls.len() == 0 || !fence_line(&ls[0]) {
        return 0;
    }
    let mut j: usize = 1;
    while j < ls.len() && !fence_line(&ls[j])
        invariant
            1 <= j <= ls@.len(),
            v == views_of(ls@),
            next_fence(v, j as int) == next_fence(v, 1),
        decreases ls.len() - j,
    {
        j = j + 1;
    }
    if j < ls.len() {
        j + 1
    } else {
        j
    }
}

/// Removes the frontmatter block and the first title heading from `content`.
pub fn strip_frontmatter_and_h1(content: &str) -> (r: String)
    ensures
        r@ == stripped(content@),
{
    let chars = chars_of(content);
    let ls = split_lines(&chars);
    let ghost v = views_of(ls@);
    let b = body_start_of(&ls);
    let mut kept: Vec<Vec<char>> = Vec::new();
    let mut removed = false;
    let mut i: usize = b;
    while i < ls.len()
        invariant
            b <= i <= ls@.len(),
            v == views_of(ls@),
            v.len() == ls@.len(),
            b == body_start(v),
            drop_first_title(v.subrange(b as int, v.len() as int)) == views_of(kept@) + if removed {
                v.subrange(i as int, v.len() as int)
            } else {
                drop_first_title(v.subrange(i as int, v.len() as int))
            },
        decreases ls.len() - i,
    {
        let line = &ls[i];
        let ghost rest = v.subrange(i as int, v.len() as int);
        assert(rest.drop_first() =~= v.subrange(i + 1, v.len() as int));
        assert(rest[0] == line@);
        if !removed && title_line(line) {
            removed = true;
        } else {
            kept.push(line.clone());
            assert(views_of(kept@) =~= views_of(kept@.drop_last()).push(line@));
        }
        i = i + 1;
    }
    assert(v.subrange(i as int, v.len() as int) =~= Seq::<Seq<char>>::empty());
    assert(views_of(kept@) =~= body_lines(v));
    string_of(&rejoin_lines(&kept))
}

/// The prompt text made of the note `content`: stripped of frontmatter and title
/// and trimmed; `None` when nothing but whitespace is left.
pub fn sanitize_prompt(content: &str) -> (r: Option<String>)
    ensures
        r matches Some(t) ==> prompt_text(content@) == Some(t@),
        r is None ==> prompt_text(content@) is None,
{
    let s = strip_frontmatter_and_h1(content);
    let t = trim_chars(&chars_of(s.as_str()));
    if t.len() == 0 {
        None
    } else {
        Some(string_of(&t))
    }
}

/// Lines without a title line lose none to `drop_first_title`.
pub proof fn lemma_no_title_kept(ls: Seq<Seq<char>>)
    requires
        forall|i: int| 0 <= i < ls.len() ==> !is_title(#[trigger] ls[i]),
    ensures
        drop_first_title(ls) == ls,
    decreases ls.len(),
{
    if ls.len() > 0 {
        assert(!is_title(ls[0]));
        let rest = ls.drop_first();
        assert forall|i: int| 0 <= i < rest.len() implies !is_title(#[trigger] rest[i]) by {
            assert(rest[i] == ls[i + 1]);
        }
        lemma_no_title_kept(rest);
        assert(seq![ls[0]] + rest =~= ls);
    }
}

/// Sanitizing text that is already plain prompt text (its first line opens no
/// frontmatter and no line is a title heading) gives the text back, trimmed.
pub proof fn lemma_sanitize_plain_text(s: Seq<char>)
    requires
        raw_lines_of(s).len() > 0 ==> !is_fence(raw_lines_of(s)[0]),
        forall|i: int| 0 <= i < raw_lines_of(s).len() ==> !is_title(#[trigger] raw_lines_of(s)[i]),
    ensures
        trim(stripped(s)) == trim(s),
        prompt_text(s) == if trim(s).len() == 0 {
            None
        } else {
            Some(trim(s))
        },
{
    let ls = raw_lines_of(s);
    assert(body_start(ls) == 0);
    assert(ls.subrange(0, ls.len() as int) =~= ls);
    lemma_no_title_kept(ls);
    assert(stripped(s) == rejoin(ls));
    lemma_concat_raw_lines(s);
    if ls.len() > 0 {
        assert(s == concat(ls.drop_last()) + ls.last());
        lemma_trim_line_ending(concat(ls.drop_last()), ls.last());
    }
}

} // verus!
