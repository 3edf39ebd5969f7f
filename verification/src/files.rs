//! The file of exported constants, which several items write into.

use vstd::prelude::*;
use crate::text::{
    contains_seq, is_white_space, join, occurs_at, push_char, seq_join, str_contains, trim, trim_seq,
};
use crate::config::opt_view;
use crate::ts::FILE_DISCLAIMER;

verus! {

/// The number of characters of `s` before its first `'\n'` (all of them
/// when there is none).
pub open spec fn line_len(s: Seq<char>) -> nat
    decreases s.len(),
{
    if s.len() == 0 || s[0] == '\n' {
        0
    } else {
        1 + line_len(s.drop_first())
    }
}

/// A line without the `'\r'` of a CRLF ending.
pub open spec fn strip_cr(line: Seq<char>) -> Seq<char> {
    if line.len() > 0 && line.last() == '\r' {
        line.drop_last()
    } else {
        line
    }
}

/// The lines of `text`, as `BufRead::lines` yields them: split at each
/// `'\n'`, without the line ending (`"\n"` or `"\r\n"`), and without an
/// empty line after a final `'\n'`.
pub open spec fn lines_of(text: Seq<char>) -> Seq<Seq<char>>
    decreases text.len(),
{
    if text.len() == 0 {
        Seq::empty()
    } else {
        let k = line_len(text);
        proof {
            lemma_line_len_bound(text);
        }
        if k == text.len() {
            seq![text]
        } else {
            seq![strip_cr(text.take(k as int))] + lines_of(text.skip(k as int + 1))
        }
    }
}

proof fn lemma_line_len(s: Seq<char>, j: int)
    requires
        0 <= j <= s.len(),
        forall|k: int| 0 <= k < j ==> s[k] != '\n',
        j == s.len() || s[j] == '\n',
    ensures
        line_len(s) == j,
    decreases j,
{
    if j > 0 {
        lemma_line_len(s.drop_first(), j - 1);
    }
}

proof fn lemma_line_len_facts(s: Seq<char>)
    ensures
        line_len(s) <= s.len(),
        forall|k: int| 0 <= k < line_len(s) ==> s[k] != '\n',
        line_len(s) < s.len() ==> s[line_len(s) as int] == '\n',
    decreases s.len(),
{
    if s.len() > 0 && s[0] != '\n' {
        let u = s.drop_first();
        lemma_line_len_facts(u);
        assert forall|k: int| 0 <= k < line_len(s) implies s[k] != '\n' by {
            if k > 0 {
                assert(s[k] == u[k - 1]);
            }
        }
        if line_len(s) < s.len() {
            assert(s[line_len(s) as int] == u[line_len(u) as int]);
        }
    }
}

/// A line is no longer than the text it starts.
pub proof fn lemma_line_len_bound(s: Seq<char>)
    ensures
        line_len(s) <= s.len(),
    decreases s.len(),
{
    if s.len() > 0 && s[0] != '\n' {
        lemma_line_len_bound(s.drop_first());
    }
}

/// The lines of `text`, as `BufRead::lines` yields them.
pub fn file_lines(text: &str) -> (r: Vec<String>)
    ensures
        r.deep_view() == lines_of(text@),
{
    let v = crate::text::chars_of(text);
    let ghost s = text@;
    let mut out: Vec<String> = Vec::new();
    let mut pos: usize = 0;
    assert(s.skip(0) =~= s);
    assert(out.deep_view() + lines_of(s) =~= lines_of(s));
    while pos < v.len()
        invariant
            v@ == s,
            pos <= v.len(),
            lines_of(s) == out.deep_view() + lines_of(s.skip(pos as int)),
        decreases v.len() - pos,
    {
        let mut line = String::new();
        let mut j: usize = pos;
        while j < v.len() && v[j] != '\n'
            invariant
                v@ == s,
                pos <= j <= v.len(),
                forall|k: int| pos <= k < j ==> s[k] != '\n',
                line@ == s.subrange(pos as int, j as int),
            decreases v.len() - j,
        {
            push_char(&mut line, v[j]);
            assert(s.subrange(pos as int, j + 1) =~= s.subrange(pos as int, j as int).push(v@[j as int]));
            j = j + 1;
        }
        let ghost rest = s.skip(pos as int);
        proof {
            assert forall|k: int| 0 <= k < j - pos implies rest[k] != '\n' by {
                assert(rest[k] == s[pos + k]);
            }
            if j < v.len() {
                assert(rest[j - pos] == s[j as int]);
            }
            lemma_line_len(rest, j - pos);
            assert(rest.take(j - pos) =~= line@);
        }
        let ghost before = out.deep_view();
        if j < v.len() {
            let n = line.as_str().unicode_len();
            if n > 0 && v[j - 1] == '\r' {
                let mut stripped = String::new();
                let mut k: usize = pos;
                while k < j - 1
                    invariant
                        v@ == s,
                        pos <= k <= j - 1,
                        j <= v.len(),
                        stripped@ == s.subrange(pos as int, k as int),
                    decreases j - 1 - k,
                {
                    push_char(&mut stripped, v[k]);
                    assert(s.subrange(pos as int, k + 1) =~= s.subrange(pos as int, k as int).push(
                        v@[k as int],
                    ));
                    k = k + 1;
                }
                assert(stripped@ =~= line@.drop_last());
                line = stripped;
            }
            out.push(line);
            proof {
                assert(out.deep_view() =~= before.push(strip_cr(rest.take(j - pos))));
                assert(rest.skip(j - pos + 1) =~= s.skip(j + 1));
                assert(lines_of(rest) == seq![strip_cr(rest.take(j - pos))] + lines_of(
                    rest.skip(j - pos + 1),
                ));
                assert(before + lines_of(rest) =~= out.deep_view() + lines_of(s.skip(j + 1)));
            }
            pos = j + 1;
        } else {
            out.push(line);
            proof {
                assert(rest.take(j - pos) =~= rest);
                assert(out.deep_view() =~= before.push(rest));
                assert(s.skip(v.len() as int) =~= Seq::<char>::empty());
                assert(before + lines_of(rest) =~= out.deep_view() + lines_of(s.skip(j as int)));
            }
            pos = j;
        }
    }
    proof {
        assert(s.skip(pos as int) =~= Seq::<char>::empty());
        assert(out.deep_view() + Seq::<Seq<char>>::empty() =~= out.deep_view());
    }
    out
}

/// The import lines and the constant lines of a constants file, each line
/// followed by `'\n'`. Lines holding the disclaimer are dropped; a line that
/// mentions `import` counts as an import line; other lines that mention
/// `const` count as constant lines; the rest are dropped.
pub open spec fn split_parts(lines: Seq<Seq<char>>) -> (Seq<char>, Seq<char>)
    decreases lines.len(),
{
    if lines.len() == 0 {
        (Seq::empty(), Seq::empty())
    } else {
        let r = split_parts(lines.drop_last());
        let l = lines.last();
        if contains_seq(l, FILE_DISCLAIMER@) {
            r
        } else if contains_seq(l, "import"@) {
            (r.0 + l + "\n"@, r.1)
        } else if contains_seq(l, "const"@) {
            (r.0, r.1 + l + "\n"@)
        } else {
            r
        }
    }
}

/// Splits the lines of a constants file into its import lines and its
/// constant lines.
pub fn split_file_content(lines: &Vec<String>) -> (r: (String, String))
    ensures
        (r.0@, r.1@) == split_parts(lines.deep_view()),
{
    let ghost lv = lines.deep_view();
    let mut content = String::new();
    let mut content_after = String::new();
    let mut i: usize = 0;
    while i < lines.len()
        invariant
            i <= lines.len(),
            lv == lines.deep_view(),
            (content@, content_after@) == split_parts(lv.take(i as int)),
        decreases lines.len() - i,
    {
        assert(lv.take(i + 1).drop_last() =~= lv.take(i as int));
        assert(lv[i as int] == lines[i as int]@);
        let line = lines[i].as_str();
        if str_contains(line, FILE_DISCLAIMER) {
        } else if str_contains(line, "import") {
            content.append(line);
            content.append("\n");
        } else if str_contains(line, "const") {
            content_after.append(line);
            content_after.append("\n");
        }
        i = i + 1;
    }
    assert(lv.take(lines.len() as int) =~= lv);
    (content, content_after)
}

/// The characters of an optional string slice.
pub open spec fn opt_str_view(o: Option<&str>) -> Option<Seq<char>> {
    match o {
        Some(s) => Some(s@),
        None => None,
    }
}

/// The new text of the constants file after adding the constant `content`
/// with the names `imports`, given the file's current text if it exists.
/// `None` means that the file already declares the constant and stays as it
/// is.
pub open spec fn const_file_text(
    existing: Option<Seq<char>>,
    imports: Seq<Seq<char>>,
    content: Seq<char>,
) -> Option<Seq<char>> {
    let head = FILE_DISCLAIMER@ + "\n\n"@;
    match existing {
        None => Some(trim_seq(head + seq_join(imports, "\n"@) + content)),
        Some(text) => {
            let p = split_parts(lines_of(text));
            if contains_seq(p.1, content) {
                None
            } else {
                Some(trim_seq(head + p.0 + seq_join(imports, "\n"@) + p.1 + content))
            }
        },
    }
}

/// Adds the constant `content`, which needs the names `imports`, to the
/// constants file whose current text is `existing` (`None` when there is no
/// such file yet). Returns the text to write, or `None` when the file
/// already holds the constant among its constant lines.
pub fn write_const_file(existing: Option<&str>, imports: Vec<String>, content: &str) -> (r: Option<
    String,
>)
    ensures
        opt_view(r) == const_file_text(opt_str_view(existing), imports.deep_view(), content@),
{
    let mut builder = FILE_DISCLAIMER.to_owned();
    builder.append("\n\n");
    match existing {
        None => {
            let joined = join(&imports, "\n");
            builder.append(joined.as_str());
            builder.append(content);
            Some(trim(builder.as_str()))
        },
        Some(text) => {
            let lines = file_lines(text);
            let (imports_part, consts_part) = split_file_content(&lines);
            if str_contains(consts_part.as_str(), content) {
                return None;
            }
            let joined = join(&imports, "\n");
            builder.append(imports_part.as_str());
            builder.append(joined.as_str());
            builder.append(consts_part.as_str());
            builder.append(content);
            Some(trim(builder.as_str()))
        },
    }
}


/// The number of characters after the last `'\n'` of `t` (all of them when
/// there is none).
pub open spec fn trailing_line_len(t: Seq<char>) -> nat
    decreases t.len(),
{
    if t.len() == 0 || t.last() == '\n' {
        0
    } else {
        1 + trailing_line_len(t.drop_last())
    }
}

/// The last line of `t`: what follows its last `'\n'`.
pub open spec fn last_line(t: Seq<char>) -> Seq<char> {
    t.skip(t.len() - trailing_line_len(t))
}

proof fn lemma_trailing_line(t: Seq<char>)
    ensures
        trailing_line_len(t) <= t.len(),
        forall|i: int| t.len() - trailing_line_len(t) <= i < t.len() ==> t[i] != '\n',
        t.len() - trailing_line_len(t) > 0 ==> t[t.len() - trailing_line_len(t) - 1] == '\n',
    decreases t.len(),
{
    if t.len() > 0 && t.last() != '\n' {
        let u = t.drop_last();
        lemma_trailing_line(u);
        assert forall|i: int| t.len() - trailing_line_len(t) <= i < t.len() implies t[i] != '\n' by {
            if i < t.len() - 1 {
                assert(t[i] == u[i]);
            }
        }
        if t.len() - trailing_line_len(t) > 0 {
            assert(t[t.len() - trailing_line_len(t) - 1] == u[u.len() - trailing_line_len(u) - 1]);
        }
    }
}

/// A text without `'\n'` that ends in `suffix` ends, as its last line, in
/// `suffix` too.
proof fn lemma_last_line_suffix(t: Seq<char>, suffix: Seq<char>)
    requires
        suffix.len() <= t.len(),
        t.skip(t.len() - suffix.len()) == suffix,
        forall|i: int| 0 <= i < suffix.len() ==> suffix[i] != '\n',
    ensures
        suffix.len() <= last_line(t).len(),
        last_line(t).skip(last_line(t).len() - suffix.len()) == suffix,
    decreases t.len(),
{
    lemma_trailing_line(t);
    let n = trailing_line_len(t) as int;
    let start = t.len() - n;
    if start > t.len() - suffix.len() {
        assert(t[start - 1] == suffix[start - 1 - (t.len() - suffix.len())]);
    }
    assert(last_line(t).skip(last_line(t).len() - suffix.len()) =~= suffix);
}

/// The lines of a text that ends in a line break, followed by a last line
/// without one, are the lines of the former and that last line.
proof fn lemma_lines_append(p: Seq<char>, l: Seq<char>)
    requires
        p.len() == 0 || p.last() == '\n',
        l.len() > 0,
        forall|i: int| 0 <= i < l.len() ==> l[i] != '\n',
    ensures
        lines_of(p + l) == lines_of(p).push(l),
    decreases p.len(),
{
    if p.len() == 0 {
        assert(p + l =~= l);
        lemma_line_len(l, l.len() as int);
    } else {
        let s = p + l;
        lemma_line_len_facts(p);
        let j = line_len(p) as int;
        if j == p.len() {
            assert(p[p.len() - 1] == p.last());
        }
        assert(j < p.len());
        assert forall|k: int| 0 <= k < j implies s[k] != '\n' by {
            assert(s[k] == p[k]);
        }
        assert(s[j] == p[j]);
        lemma_line_len(s, j);
        lemma_line_len(p, j);
        let rest = p.skip(j + 1);
        assert(s.skip(j + 1) =~= rest + l);
        assert(s.take(j) =~= p.take(j));
        if rest.len() > 0 {
            assert(rest.last() == p.last());
        }
        lemma_lines_append(rest, l);
        assert(lines_of(s) =~= lines_of(p).push(l));
    }
}

proof fn lemma_trim_keeps(s: Seq<char>)
    requires
        s.len() > 0,
        !is_white_space(s[0]),
        !is_white_space(s.last()),
    ensures
        trim_seq(s) == s,
{
}

proof fn lemma_contains_extend(a: Seq<char>, b: Seq<char>, c: Seq<char>, needle: Seq<char>)
    requires
        contains_seq(b, needle),
    ensures
        contains_seq(a + b + c, needle),
{
    let i = choose|i: int| occurs_at(b, needle, i);
    assert((a + b + c).subrange(a.len() + i, a.len() + i + needle.len()) =~= needle);
    assert(occurs_at(a + b + c, needle, a.len() + i));
}

/// Adding a constant to the constants file a second time leaves the file as
/// it is, when the constant's declaration is one line that mentions `const`
/// and ends in no white space, and the written file's last line is read back
/// as a constant line (it mentions neither `import` nor the disclaimer).
pub proof fn adding_a_constant_twice_changes_nothing(
    existing: Option<Seq<char>>,
    imports: Seq<Seq<char>>,
    later_imports: Seq<Seq<char>>,
    content: Seq<char>,
)
    requires
        const_file_text(existing, imports, content) is Some,
        content.len() > 0,
        !is_white_space(content.last()),
        forall|i: int| 0 <= i < content.len() ==> content[i] != '\n',
        contains_seq(content, "const"@),
        !contains_seq(last_line(const_file_text(existing, imports, content)->0), "import"@),
        !contains_seq(last_line(const_file_text(existing, imports, content)->0), FILE_DISCLAIMER@),
    ensures
        const_file_text(Some(const_file_text(existing, imports, content)->0), later_imports, content)
            is None,
{
    let t = const_file_text(existing, imports, content)->0;
    let head = FILE_DISCLAIMER@ + "\n\n"@;
    let whole: Seq<char> = match existing {
        None => head + seq_join(imports, "\n"@) + content,
        Some(text) => {
            let p = split_parts(lines_of(text));
            head + p.0 + seq_join(imports, "\n"@) + p.1 + content
        },
    };
    assert(t == trim_seq(whole));
    reveal_strlit("// Do not edit: ts-bind rewrites this file.");
    assert(whole[0] == '/');
    assert(whole.last() == content.last());
    lemma_trim_keeps(whole);
    assert(whole.skip(whole.len() - content.len()) =~= content);
    lemma_last_line_suffix(t, content);
    lemma_trailing_line(t);
    let l = last_line(t);
    let n = trailing_line_len(t) as int;
    let p = t.take(t.len() - n);
    assert(t =~= p + l);
    assert forall|i: int| 0 <= i < l.len() implies l[i] != '\n' by {
        assert(l[i] == t[t.len() - n + i]);
    }
    if p.len() > 0 {
        assert(p.last() == t[t.len() - n - 1]);
    }
    lemma_lines_append(p, l);
    let before = split_parts(lines_of(p));
    let lines = lines_of(t);
    assert(lines.drop_last() =~= lines_of(p));
    assert(lines.last() == l);
    let c = content;
    assert(l.subrange(l.len() - c.len(), l.len() as int) =~= c);
    assert(occurs_at(l, c, l.len() - c.len()));
    let r = split_parts(lines);
    assert(contains_seq(l, "const"@)) by {
        let i = choose|i: int| occurs_at(c, "const"@, i);
        let k = l.len() - c.len() + i;
        assert(l.subrange(k, k + "const"@.len()) =~= c.subrange(i, i + "const"@.len()));
        assert(occurs_at(l, "const"@, k));
    }
    assert(r.1 == before.1 + l + "\n"@);
    lemma_contains_extend(before.1, l, "\n"@, c);
}


/// Reading one more line: a line holding the disclaimer is dropped; else a
/// line that mentions `import` joins the import lines; else a line that
/// mentions `const` joins the constant lines; any other line is dropped.
/// Each kept line is followed by `'\n'`.
pub proof fn lines_are_sorted_into_parts(lines: Seq<Seq<char>>, l: Seq<char>)
    ensures
        contains_seq(l, FILE_DISCLAIMER@) ==> split_parts(lines.push(l)) == split_parts(lines),
        !contains_seq(l, FILE_DISCLAIMER@) && contains_seq(l, "import"@) ==> split_parts(
            lines.push(l),
        ) == (split_parts(lines).0 + l + "\n"@, split_parts(lines).1),
        !contains_seq(l, FILE_DISCLAIMER@) && !contains_seq(l, "import"@) && contains_seq(
            l,
            "const"@,
        ) ==> split_parts(lines.push(l)) == (split_parts(lines).0, split_parts(lines).1 + l + "\n"@),
        !contains_seq(l, FILE_DISCLAIMER@) && !contains_seq(l, "import"@) && !contains_seq(
            l,
            "const"@,
        ) ==> split_parts(lines.push(l)) == split_parts(lines),
{
    assert(lines.push(l).drop_last() =~= lines);
}

/// The file is left alone exactly when it exists and its constant lines
/// already hold the constant; otherwise the new text starts with the
/// disclaimer line and, when the constant ends in no white space, ends with
/// the constant.
pub proof fn constants_file_update(existing: Option<Seq<char>>, imports: Seq<Seq<char>>, content: Seq<char>)
    ensures
        (const_file_text(existing, imports, content) is None) == (existing is Some && contains_seq(
            split_parts(lines_of(existing->0)).1,
            content,
        )),
        const_file_text(existing, imports, content) is Some ==> ({
            let t = const_file_text(existing, imports, content)->0;
            let head = FILE_DISCLAIMER@ + "\n\n"@;
            (content.len() > 0 && !is_white_space(content.last())) ==> t.len() >= head.len()
                + content.len() && t.take(head.len() as int) == head && t.skip(
                t.len() - content.len(),
            ) == content
        }),
{
    if const_file_text(existing, imports, content) is Some && content.len() > 0
        && !is_white_space(content.last()) {
        let head = FILE_DISCLAIMER@ + "\n\n"@;
        let mid: Seq<char> = match existing {
            None => seq_join(imports, "\n"@),
            Some(text) => {
                let p = split_parts(lines_of(text));
                p.0 + seq_join(imports, "\n"@) + p.1
            },
        };
        let whole = head + mid + content;
        reveal_strlit("// Do not edit: ts-bind rewrites this file.");
        assert(whole[0] == '/');
        assert(whole.last() == content.last());
        match existing {
            None => assert(whole =~= head + seq_join(imports, "\n"@) + content),
            Some(text) => {
                let p = split_parts(lines_of(text));
                assert(whole =~= head + p.0 + seq_join(imports, "\n"@) + p.1 + content);
            },
        }
        lemma_trim_keeps(whole);
        assert(whole.take(head.len() as int) =~= head);
        assert(whole.skip(whole.len() - content.len()) =~= content);
    }
}

} // verus!
