//! Prompt assembly and what a session starts with.
//!
//! A prompt's attachments travel as its trailing lines, one path each. Reading a
//! transcript back takes those lines off again.

use vstd::prelude::*;

use crate::domain::{Attachment, AttachmentKind, AttachmentView, BashPolicy};
use crate::text::{
    cat3, chars_of, is_white_space, join, joined, string_of, trim_end, trimmed_end,
};
use crate::views::{lemma_views_push, opt_view, views};

verus! {

/// What a policy is called in the environment.
pub open spec fn policy_name(policy: BashPolicy) -> Seq<char> {
    match policy {
        BashPolicy::Allow => "allow"@,
        BashPolicy::Ask => "ask"@,
        BashPolicy::Deny => "deny"@,
    }
}

/// What a policy is called in the environment.
pub fn bash_policy_name(policy: &BashPolicy) -> (r: &'static str)
    ensures
        r@ == policy_name(*policy),
{
    match policy {
        BashPolicy::Allow => "allow",
        BashPolicy::Ask => "ask",
        BashPolicy::Deny => "deny",
    }
}

/// The attachment of a file or folder: it is named by the last part of its path
/// where that is text.
pub fn attachment_of(
    path: &str,
    file_name: Option<&str>,
    is_directory: bool,
    generated_by_app: bool,
) -> (r: Attachment)
    ensures
        r@ == (AttachmentView {
            name: match file_name {
                Some(name) => name@,
                None => "attachment"@,
            },
            path: path@,
            kind: if is_directory {
                AttachmentKind::Directory
            } else {
                AttachmentKind::File
            },
            generated_by_app,
        }),
{
    Attachment {
        name: match file_name {
            Some(name) => name.to_owned(),
            None => "attachment".to_owned(),
        },
        path: path.to_owned(),
        kind: if is_directory {
            AttachmentKind::Directory
        } else {
            AttachmentKind::File
        },
        generated_by_app,
    }
}

/// The most characters of a paste that stays in the composer.
pub const MAX_PASTE_CHARS: usize = 1000;

/// The most lines of a paste that stays in the composer.
pub const MAX_PASTE_LINES: usize = 10;

/// How many line breaks a text holds.
pub open spec fn breaks(s: Seq<char>) -> nat
    decreases s.len(),
{
    if s.len() == 0 {
        0
    } else {
        breaks(s.drop_last()) + if s.last() == '\n' {
            1nat
        } else {
            0nat
        }
    }
}

/// How many lines a text has; a line break at its end starts no further line.
pub open spec fn line_count(s: Seq<char>) -> nat {
    breaks(s) + if s.len() > 0 && s.last() != '\n' {
        1nat
    } else {
        0nat
    }
}

/// Whether a pasted text is too large for the composer.
pub fn is_large_paste(text: &str) -> (r: bool)
    ensures
        r == (text@.len() > MAX_PASTE_CHARS || line_count(text@) > MAX_PASTE_LINES),
{
    let chars = chars_of(text);
    if chars.len() > MAX_PASTE_CHARS {
        return true;
    }
    let mut count: usize = 0;
    let mut i: usize = 0;
    proof {
        assert(text@.take(0) =~= Seq::<char>::empty());
    }
    while i < chars.len()
        invariant
            i <= chars@.len() <= MAX_PASTE_CHARS,
            chars@ == text@,
            count == breaks(text@.take(i as int)),
            count <= i,
        decreases chars@.len() - i,
    {
        proof {
            assert(text@.take(i + 1).drop_last() =~= text@.take(i as int));
        }
        if chars[i] == '\n' {
            count = count + 1;
        }
        i = i + 1;
    }
    proof {
        assert(text@.take(i as int) =~= text@);
    }
    if chars.len() > 0 && chars[chars.len() - 1] != '\n' {
        count = count + 1;
    }
    count > MAX_PASTE_LINES
}

/// The paths of attachments.
pub open spec fn paths_of(attachments: Seq<AttachmentView>) -> Seq<Seq<char>> {
    attachments.map_values(|attachment: AttachmentView| attachment.path)
}

/// A text with paths as its trailing lines.
pub open spec fn with_paths(content: Seq<char>, paths: Seq<Seq<char>>) -> Seq<char> {
    if paths.len() == 0 {
        content
    } else if content.len() == 0 {
        join(paths, "\n"@)
    } else {
        content + "\n"@ + join(paths, "\n"@)
    }
}

/// A prompt with the paths of its attachments as its trailing lines.
pub fn prompt_with_attachment_paths(content: &str, attachments: &Vec<Attachment>) -> (r: String)
    ensures
        r@ == with_paths(content@, paths_of(views(attachments@))),
{
    let ghost want = paths_of(views(attachments@));
    let mut paths: Vec<String> = Vec::new();
    let mut i: usize = 0;
    while i < attachments.len()
        invariant
            i <= attachments@.len(),
            want == paths_of(views(attachments@)),
            views(paths@) == want.take(i as int),
        decreases attachments@.len() - i,
    {
        let path = attachments[i].path.clone();
        proof {
            lemma_views_push(paths@, path);
            assert(want.take(i + 1) =~= want.take(i as int).push(path@));
        }
        paths.push(path);
        i = i + 1;
    }
    proof {
        assert(want.take(i as int) =~= want);
    }
    if paths.len() == 0 {
        return content.to_owned();
    }
    let lines = joined(&paths, "\n");
    if content.is_empty() {
        lines
    } else {
        cat3(content, "\n", lines.as_str())
    }
}

/// Where the last line of a text starts.
pub open spec fn line_start(s: Seq<char>) -> nat
    decreases s.len(),
{
    if s.len() == 0 || s.last() == '\n' {
        s.len()
    } else {
        line_start(s.drop_last())
    }
}

/// What is left of a text once `n` trailing lines were taken off.
pub open spec fn left_after(text: Seq<char>, n: nat) -> Seq<char>
    decreases n,
{
    if n == 0 {
        text
    } else {
        let head = trim_end(left_after(text, (n - 1) as nat));
        head.take(line_start(head) as int)
    }
}

/// The last line of what is left once `n` trailing lines were taken off.
pub open spec fn line_after(text: Seq<char>, n: nat) -> Seq<char> {
    let head = trim_end(left_after(text, n));
    head.skip(line_start(head) as int)
}

/// Whether `resolve` may have said `answer` of a line.
pub open spec fn said<F: Fn(&str) -> Option<Attachment>>(
    resolve: F,
    line: Seq<char>,
    answer: Option<AttachmentView>,
) -> bool {
    exists|s: &str, o: Option<Attachment>|
        s@ == line && #[trigger] call_ensures(resolve, (s,), o) && opt_view(o) == answer
}

/// Whether the line that comes off behind `n` others is there, and `resolve` said
/// that it is `attachment`.
pub open spec fn was_taken<F: Fn(&str) -> Option<Attachment>>(
    resolve: F,
    text: Seq<char>,
    n: nat,
    attachment: AttachmentView,
) -> bool {
    trim_end(left_after(text, n)).len() > 0 && said(resolve, line_after(text, n), Some(attachment))
}

/// Whether taking trailing lines off `text` by what `resolve` said of them gave
/// `taken`, the last line first: each line taken is an attachment, and what is
/// left is blank or ends in a line that is none.
pub open spec fn was_split<F: Fn(&str) -> Option<Attachment>>(
    resolve: F,
    text: Seq<char>,
    taken: Seq<AttachmentView>,
) -> bool {
    &&& forall|i: int| 0 <= i < taken.len() ==> was_taken(resolve, text, i as nat, #[trigger] taken[i])
    &&& trim_end(left_after(text, taken.len())).len() == 0 || said(
        resolve,
        line_after(text, taken.len()),
        None,
    )
}

proof fn lemma_trim_end(s: Seq<char>)
    ensures
        trim_end(s).len() <= s.len(),
        trim_end(s) == s.take(trim_end(s).len() as int),
        trim_end(s).len() > 0 ==> !is_white_space(trim_end(s).last()),
        s.len() > 0 && !is_white_space(s.last()) ==> trim_end(s) == s,
    decreases s.len(),
{
    if s.len() > 0 && is_white_space(s.last()) {
        lemma_trim_end(s.drop_last());
        let n = trim_end(s).len() as int;
        assert(s.drop_last().take(n) =~= s.take(n));
    } else {
        assert(s.take(s.len() as int) =~= s);
    }
}

proof fn lemma_line_start(s: Seq<char>)
    ensures
        line_start(s) <= s.len(),
        s.len() > 0 && s.last() != '\n' ==> line_start(s) < s.len(),
    decreases s.len(),
{
    if s.len() > 0 && s.last() != '\n' {
        lemma_line_start(s.drop_last());
    }
}

/// Where the last line of `chars` starts.
fn last_line_start(chars: &Vec<char>) -> (r: usize)
    ensures
        r == line_start(chars@),
        r <= chars@.len(),
{
    let mut start: usize = chars.len();
    proof {
        assert(chars@.take(start as int) =~= chars@);
    }
    while start > 0 && chars[start - 1] != '\n'
        invariant
            start <= chars@.len(),
            line_start(chars@) == line_start(chars@.take(start as int)),
        decreases start,
    {
        proof {
            assert(chars@.take(start as int).drop_last() =~= chars@.take(start - 1));
        }
        start = start - 1;
    }
    start
}

proof fn lemma_reverse_push<T>(v: Seq<T>, t: T)
    ensures
        v.push(t).reverse() == seq![t] + v.reverse(),
{
    assert(v.push(t).reverse() =~= seq![t] + v.reverse());
}

/// Takes the paths of attachments off the end of a prompt. `resolve` says what
/// attachment a line names, where it names one: an absolute path that still
/// exists. Any other line is prose that the author meant to send.
pub fn split_attachment_paths<F: Fn(&str) -> Option<Attachment>>(text: &str, resolve: F) -> (r: (
    String,
    Vec<Attachment>,
))
    requires
        forall|line: &str| call_requires(resolve, (line,)),
    ensures
        exists|taken: Seq<AttachmentView>| #[trigger]
            was_split(resolve, text@, taken) && r.0@ == trim_end(left_after(text@, taken.len()))
                && views(r.1@) == taken.reverse(),
{
    let mut rest = text.to_owned();
    let mut attachments: Vec<Attachment> = Vec::new();
    let ghost mut taken: Seq<AttachmentView> = Seq::empty();
    let mut done = false;
    proof {
        assert(views(attachments@) =~= taken.reverse());
    }
    while !done
        invariant
            forall|line: &str| call_requires(resolve, (line,)),
            rest@ == left_after(text@, taken.len()),
            views(attachments@) == taken.reverse(),
            forall|i: int|
                0 <= i < taken.len() ==> was_taken(resolve, text@, i as nat, #[trigger] taken[i]),
            done ==> trim_end(rest@).len() == 0 || said(
                resolve,
                line_after(text@, taken.len()),
                None,
            ),
        decreases rest@.len() + if done {
            0nat
        } else {
            1nat
        },
    {
        let head = trimmed_end(rest.as_str());
        if head.as_str().is_empty() {
            done = true;
        } else {
            let chars = chars_of(head.as_str());
            let start: usize = last_line_start(&chars);
            proof {
                lemma_trim_end(rest@);
                lemma_line_start(head@);
            }
            let line = string_of(&chars, start, chars.len());
            proof {
                assert(line@ =~= head@.skip(start as int));
                assert(line@ == line_after(text@, taken.len()));
            }
            match resolve(line.as_str()) {
                Some(attachment) => {
                    proof {
                        assert(said(resolve, line@, Some(attachment@)));
                        assert(was_taken(resolve, text@, taken.len(), attachment@));
                        let before = taken;
                        taken = taken.push(attachment@);
                        lemma_reverse_push(before, attachment@);
                        assert(views(attachments@.insert(0, attachment)) =~= seq![attachment@]
                            + before.reverse());
                    }
                    attachments.insert(0, attachment);
                    rest = string_of(&chars, 0, start);
                    proof {
                        assert(rest@ =~= head@.take(start as int));
                    }
                },
                None => {
                    proof {
                        assert(said(resolve, line@, None));
                    }
                    done = true;
                },
            }
        }
    }
    proof {
        assert(was_split(resolve, text@, taken));
    }
    (trimmed_end(rest.as_str()), attachments)
}

/// Whether a path can travel as a line: it is not empty, on one line, and ends in
/// no white space.
pub open spec fn is_line(path: Seq<char>) -> bool {
    &&& path.len() > 0
    &&& !is_white_space(path.last())
    &&& forall|i: int| 0 <= i < path.len() ==> #[trigger] path[i] != '\n'
}

proof fn lemma_line_start_of(s: Seq<char>, line: Seq<char>)
    requires
        is_line(line),
        s.len() == 0 || s.last() == '\n',
    ensures
        line_start(s + line) == s.len(),
{
    assert((s + line).take((s + line).len() as int) =~= s + line);
    lemma_line_start_within(s, line, line.len() as int);
}

proof fn lemma_line_start_within(s: Seq<char>, line: Seq<char>, n: int)
    requires
        0 <= n <= line.len(),
        forall|i: int| 0 <= i < line.len() ==> #[trigger] line[i] != '\n',
        s.len() == 0 || s.last() == '\n',
    ensures
        line_start(s + line.take(n)) == s.len(),
        line_start((s + line).take(s.len() + n)) == s.len(),
    decreases n,
{
    let here = s + line.take(n);
    assert((s + line).take(s.len() + n) =~= here);
    if n == 0 {
        assert(here =~= s);
    } else {
        lemma_line_start_within(s, line, n - 1);
        assert(here.last() == line[n - 1]);
        assert(here.drop_last() =~= s + line.take(n - 1));
    }
}

proof fn lemma_trim_end_break(s: Seq<char>)
    requires
        trim_end(s) == s,
    ensures
        trim_end(s.push('\n')) == s,
{
    assert(s.push('\n').drop_last() =~= s);
}

/// One more path is one more line.
proof fn lemma_with_paths_push(content: Seq<char>, paths: Seq<Seq<char>>, path: Seq<char>)
    requires
        content.len() > 0 || paths.len() > 0,
        forall|i: int| 0 <= i < paths.len() ==> is_line(#[trigger] paths[i]),
    ensures
        with_paths(content, paths.push(path)) == with_paths(content, paths).push('\n') + path,
{
    reveal_strlit("\n");
    let more = paths.push(path);
    assert(more.drop_last() =~= paths);
    if paths.len() == 0 {
        assert(join(more, "\n"@) == path);
    } else {
        assert(join(more, "\n"@) == join(paths, "\n"@) + "\n"@ + path);
    }
    assert(with_paths(content, more) =~= with_paths(content, paths).push('\n') + path);
}

/// A prompt whose lines are all paths or whose content ends in no white space
/// ends in none itself.
proof fn lemma_with_paths_is_trimmed(content: Seq<char>, paths: Seq<Seq<char>>)
    requires
        trim_end(content) == content,
        forall|i: int| 0 <= i < paths.len() ==> is_line(#[trigger] paths[i]),
    ensures
        trim_end(with_paths(content, paths)) == with_paths(content, paths),
        paths.len() > 0 ==> with_paths(content, paths).len() > 0,
{
    if paths.len() > 0 {
        let front = paths.drop_last();
        let last = paths.last();
        assert(paths =~= front.push(last));
        assert(is_line(paths[paths.len() - 1]));
        assert forall|i: int| 0 <= i < front.len() implies is_line(#[trigger] front[i]) by {
            assert(front[i] == paths[i]);
        }
        if content.len() > 0 || front.len() > 0 {
            lemma_with_paths_push(content, front, last);
        } else {
            assert(join(paths, "\n"@) == last);
        }
        let all = with_paths(content, paths);
        assert(all.last() == last.last());
        lemma_trim_end(all);
    }
}

/// What is left of a prompt once `n` of its attachment lines were taken off, and
/// the line that comes off next.
proof fn lemma_wire_after(content: Seq<char>, paths: Seq<Seq<char>>, n: nat)
    requires
        trim_end(content) == content,
        forall|i: int| 0 <= i < paths.len() ==> is_line(#[trigger] paths[i]),
        n <= paths.len(),
    ensures
        trim_end(left_after(with_paths(content, paths), n)) == with_paths(
            content,
            paths.take(paths.len() - n),
        ),
        n < paths.len() ==> line_after(with_paths(content, paths), n) == paths[paths.len() - n - 1],
    decreases n,
{
    let all = with_paths(content, paths);
    let front = paths.take(paths.len() - n);
    assert forall|i: int| 0 <= i < front.len() implies is_line(#[trigger] front[i]) by {
        assert(front[i] == paths[i]);
    }
    if n == 0 {
        assert(front =~= paths);
        lemma_with_paths_is_trimmed(content, paths);
    } else {
        lemma_wire_after(content, paths, (n - 1) as nat);
        let head = trim_end(left_after(all, (n - 1) as nat));
        let longer = paths.take(paths.len() - n + 1);
        let path = paths[paths.len() - n];
        assert(is_line(path));
        assert(longer =~= front.push(path));
        assert(head == with_paths(content, longer));
        lemma_with_paths_is_trimmed(content, front);
        if content.len() > 0 || front.len() > 0 {
            let before = with_paths(content, front);
            lemma_with_paths_push(content, front, path);
            lemma_line_start_of(before.push('\n'), path);
            assert(head.take(line_start(head) as int) =~= before.push('\n'));
            lemma_trim_end_break(before);
        } else {
            assert(join(longer, "\n"@) == path);
            lemma_line_start_of(Seq::<char>::empty(), path);
            assert(Seq::<char>::empty() + path =~= path);
            assert(head.take(line_start(head) as int) =~= Seq::<char>::empty());
            assert(with_paths(content, front) =~= Seq::<char>::empty());
        }
    }
    if n < paths.len() {
        let head = with_paths(content, front);
        let path = paths[paths.len() - n - 1];
        let rest = paths.take(paths.len() - n - 1);
        assert(is_line(path));
        assert(front =~= rest.push(path));
        assert forall|i: int| 0 <= i < rest.len() implies is_line(#[trigger] rest[i]) by {
            assert(rest[i] == paths[i]);
        }
        if content.len() > 0 || rest.len() > 0 {
            let before = with_paths(content, rest);
            lemma_with_paths_push(content, rest, path);
            lemma_line_start_of(before.push('\n'), path);
            assert(head.skip(line_start(head) as int) =~= path);
        } else {
            assert(join(front, "\n"@) == path);
            lemma_line_start_of(Seq::<char>::empty(), path);
            assert(Seq::<char>::empty() + path =~= path);
            assert(head.skip(line_start(head) as int) =~= path);
        }
    }
}

/// Whether `resolve` says of every line what `names` says of it.
pub open spec fn resolves_as<F: Fn(&str) -> Option<Attachment>>(
    resolve: F,
    names: spec_fn(Seq<char>) -> Option<AttachmentView>,
) -> bool {
    forall|line: Seq<char>, answer: Option<AttachmentView>|
        #![trigger said(resolve, line, answer)]
        said(resolve, line, answer) ==> answer == names(line)
}

/// Taking the attachments off a prompt gives back what it was put together from.
/// The content must end in no white space and in no line that names an attachment
/// itself, and each path must be one line and name its attachment.
pub proof fn lemma_split_undoes_prompt<F: Fn(&str) -> Option<Attachment>>(
    resolve: F,
    names: spec_fn(Seq<char>) -> Option<AttachmentView>,
    content: Seq<char>,
    attachments: Seq<AttachmentView>,
    taken: Seq<AttachmentView>,
)
    requires
        resolves_as(resolve, names),
        trim_end(content) == content,
        content.len() > 0 ==> names(content.skip(line_start(content) as int)) is None,
        forall|i: int|
            #![trigger attachments[i]]
            0 <= i < attachments.len() ==> is_line(attachments[i].path) && names(
                attachments[i].path,
            ) == Some(attachments[i]),
        was_split(resolve, with_paths(content, paths_of(attachments)), taken),
    ensures
        taken.reverse() == attachments,
        trim_end(left_after(with_paths(content, paths_of(attachments)), taken.len())) == content,
{
    let paths = paths_of(attachments);
    let all = with_paths(content, paths);
    assert forall|i: int| 0 <= i < paths.len() implies is_line(#[trigger] paths[i]) by {
        assert(paths[i] == attachments[i].path);
    }
    let n = attachments.len();
    // Every line that is a path was taken, and no more.
    assert(taken.len() >= n) by {
        if taken.len() < n {
            lemma_wire_after(content, paths, taken.len());
            let front = paths.take(paths.len() - taken.len());
            assert forall|i: int| 0 <= i < front.len() implies is_line(#[trigger] front[i]) by {
                assert(front[i] == paths[i]);
            }
            lemma_with_paths_is_trimmed(content, front);
            let k = n - taken.len() - 1;
            assert(line_after(all, taken.len()) == attachments[k].path);
            assert(said(resolve, line_after(all, taken.len()), None));
        }
    }
    lemma_wire_after(content, paths, n);
    assert(paths.take(0) =~= Seq::<Seq<char>>::empty());
    assert(with_paths(content, paths.take(0)) == content);
    assert(taken.len() <= n) by {
        if taken.len() > n {
            let _ = taken[n as int];
            assert(said(resolve, line_after(all, n), Some(taken[n as int])));
            assert(line_after(all, n) == content.skip(line_start(content) as int));
        }
    }
    assert forall|i: int| 0 <= i < n implies taken.reverse()[i] == attachments[i] by {
        let k = n - 1 - i;
        lemma_wire_after(content, paths, k as nat);
        assert(line_after(all, k as nat) == paths[i]);
        assert(said(resolve, line_after(all, k as nat), Some(taken[k])));
        assert(attachments[i].path == paths[i]);
    }
    assert(taken.reverse() =~= attachments);
}

/// A prompt that does not end in a line that names an attachment is left as it is,
/// but for blanks at its end.
pub proof fn lemma_prose_stays<F: Fn(&str) -> Option<Attachment>>(
    resolve: F,
    names: spec_fn(Seq<char>) -> Option<AttachmentView>,
    text: Seq<char>,
    taken: Seq<AttachmentView>,
)
    requires
        resolves_as(resolve, names),
        names(line_after(text, 0)) is None,
        was_split(resolve, text, taken),
    ensures
        taken.len() == 0,
        trim_end(left_after(text, taken.len())) == trim_end(text),
{
    if taken.len() > 0 {
        let _ = taken[0];
        assert(said(resolve, line_after(text, 0), Some(taken[0])));
    }
}

} // verus!
