//! Reading a model description file for the model that it builds on.
//!
//! A file holds a model description where its name ends with `.Modelfile`;
//! what stands before that names the model.
//!
//! The lines of a file are what stands between line feeds. The first line
//! that, without the white space around it, starts with `FROM` in capital or
//! small letters and a space names the base model: its second word. Words are
//! what white space separates.

use vstd::prelude::*;
use crate::error::AppError;
use crate::models::{ModelFile, ModelFileInfo, ModelFileInfoView, ModelFileView, views};
use crate::ollama::check_base_model;
use crate::text::{chars_of, text_view};

verus! {

/// `c` is white space: one of the characters with the Unicode property
/// `White_Space`.
pub open spec fn white_space(c: char) -> bool {
    ||| '\u{9}' <= c <= '\u{d}'
    ||| c == ' '
    ||| c == '\u{85}'
    ||| c == '\u{a0}'
    ||| c == '\u{1680}'
    ||| '\u{2000}' <= c <= '\u{200a}'
    ||| c == '\u{2028}'
    ||| c == '\u{2029}'
    ||| c == '\u{202f}'
    ||| c == '\u{205f}'
    ||| c == '\u{3000}'
}

/// `s` starts with the word that marks the line of the base model, in
/// capital or small letters, and a space.
pub open spec fn starts_with_keyword(s: Seq<char>) -> bool {
    &&& s.len() >= 5
    &&& (s[0] == 'F' || s[0] == 'f')
    &&& (s[1] == 'R' || s[1] == 'r')
    &&& (s[2] == 'O' || s[2] == 'o')
    &&& (s[3] == 'M' || s[3] == 'm')
    &&& s[4] == ' '
}

/// Tells whether a character is white space.
pub fn is_white_space(c: char) -> (r: bool)
    ensures
        r == white_space(c),
{
    ('\u{9}' <= c && c <= '\u{d}') || c == ' ' || c == '\u{85}' || c == '\u{a0}' || c == '\u{1680}'
        || ('\u{2000}' <= c && c <= '\u{200a}') || c == '\u{2028}' || c == '\u{2029}' || c
        == '\u{202f}' || c == '\u{205f}' || c == '\u{3000}'
}

/// How many characters of white space `s` starts with.
pub open spec fn leading_space(s: Seq<char>) -> int
    decreases s.len(),
{
    if s.len() > 0 && white_space(s[0]) {
        1 + leading_space(s.drop_first())
    } else {
        0
    }
}

/// How many characters other than white space `s` starts with.
pub open spec fn leading_word(s: Seq<char>) -> int
    decreases s.len(),
{
    if s.len() > 0 && !white_space(s[0]) {
        1 + leading_word(s.drop_first())
    } else {
        0
    }
}

/// How many characters of white space `s` ends with.
pub open spec fn trailing_space(s: Seq<char>) -> int
    decreases s.len(),
{
    if s.len() > 0 && white_space(s.last()) {
        1 + trailing_space(s.drop_last())
    } else {
        0
    }
}

/// `s` without the white space at its start and at its end.
pub open spec fn trimmed(s: Seq<char>) -> Seq<char> {
    let rest = s.skip(leading_space(s));
    rest.take(rest.len() - trailing_space(rest))
}

/// The line names the base model.
pub open spec fn names_base(line: Seq<char>) -> bool {
    starts_with_keyword(trimmed(line))
}

/// The second word of `line`, if it has two words.
pub open spec fn second_word(line: Seq<char>) -> Option<Seq<char>> {
    let first = line.skip(leading_space(line));
    let gap = first.skip(leading_word(first));
    let second = gap.skip(leading_space(gap));
    if leading_word(second) > 0 {
        Some(second.take(leading_word(second)))
    } else {
        None
    }
}

/// How many characters stand before the first line feed of `s`; the length
/// of `s` where it has none.
pub open spec fn line_end(s: Seq<char>) -> int
    decreases s.len(),
{
    if s.len() > 0 && s[0] != '\n' {
        1 + line_end(s.drop_first())
    } else {
        0
    }
}

/// The extension of the files that hold a model description.
pub open spec fn description_extension() -> Seq<char> {
    "Modelfile"@
}

/// Where the last dot of `name` stands; -1 where it has none.
pub open spec fn last_dot(name: Seq<char>) -> int
    decreases name.len(),
{
    if name.len() == 0 {
        -1
    } else if name.last() == '.' {
        name.len() - 1
    } else {
        last_dot(name.drop_last())
    }
}

/// The name of the model that the file with this name describes: what
/// stands before the last dot, where what follows it is the extension of
/// model descriptions. A dot at the very start begins no extension.
pub open spec fn described_model(file_name: Seq<char>) -> Option<Seq<char>> {
    let dot = last_dot(file_name);
    if dot > 0 && file_name.skip(dot + 1) == description_extension() {
        Some(file_name.take(dot))
    } else {
        None
    }
}

/// The base model that a description with this content names, if it names
/// one.
pub open spec fn base_model_of(content: Seq<char>) -> Option<Seq<char>>
    decreases content.len(),
{
    let end = line_end(content);
    if content.len() == 0 {
        None
    } else if names_base(content.take(end)) {
        second_word(content.take(end))
    } else if end < 0 || end >= content.len() {
        None
    } else {
        base_model_of(content.skip(end + 1))
    }
}

/// What is known of a description file once the endpoint's models are
/// listed.
pub open spec fn status_of(file: ModelFileView, listed: Seq<Seq<char>>) -> ModelFileInfoView {
    ModelFileInfoView {
        name: file.name,
        path: file.path,
        content: file.content,
        base_model: base_model_of(file.content),
        is_base_available: match base_model_of(file.content) {
            Some(base) => listed.contains(base),
            None => false,
        },
    }
}

/// The models that count as listed: those that the endpoint gave, none
/// where asking it failed.
pub open spec fn listed_models(listed: Result<Vec<String>, AppError>) -> Seq<Seq<char>> {
    match listed {
        Ok(models) => views(models@),
        Err(_) => Seq::empty(),
    }
}

/// The place after the white space that starts at `from`.
fn skip_space(chars: &Vec<char>, from: usize, to: usize) -> (r: usize)
    requires
        from <= to <= chars.len(),
    ensures
        from <= r <= to,
        r == from + leading_space(chars@.subrange(from as int, to as int)),
{
    let ghost s = chars@.subrange(from as int, to as int);
    let mut i: usize = from;
    assert(s.skip(0) =~= s);
    while i < to && is_white_space(chars[i])
        invariant
            from <= i <= to,
            to <= chars.len(),
            s == chars@.subrange(from as int, to as int),
            leading_space(s) == (i - from) + leading_space(s.skip(i - from)),
        decreases to - i,
    {
        assert(s.skip(i - from)[0] == chars[i as int]);
        assert(s.skip(i - from).drop_first() =~= s.skip(i - from + 1));
        i += 1;
    }
    proof {
        if i < to {
            assert(s.skip(i - from)[0] == chars[i as int]);
        }
    }
    i
}

/// The place after the word that starts at `from`.
fn skip_word(chars: &Vec<char>, from: usize, to: usize) -> (r: usize)
    requires
        from <= to <= chars.len(),
    ensures
        from <= r <= to,
        r == from + leading_word(chars@.subrange(from as int, to as int)),
{
    let ghost s = chars@.subrange(from as int, to as int);
    let mut i: usize = from;
    assert(s.skip(0) =~= s);
    while i < to && !is_white_space(chars[i])
        invariant
            from <= i <= to,
            to <= chars.len(),
            s == chars@.subrange(from as int, to as int),
            leading_word(s) == (i - from) + leading_word(s.skip(i - from)),
        decreases to - i,
    {
        assert(s.skip(i - from)[0] == chars[i as int]);
        assert(s.skip(i - from).drop_first() =~= s.skip(i - from + 1));
        i += 1;
    }
    proof {
        if i < to {
            assert(s.skip(i - from)[0] == chars[i as int]);
        }
    }
    i
}

/// The place before the white space that ends at `to`.
fn skip_space_back(chars: &Vec<char>, from: usize, to: usize) -> (r: usize)
    requires
        from <= to <= chars.len(),
    ensures
        from <= r <= to,
        r == to - trailing_space(chars@.subrange(from as int, to as int)),
{
    let ghost s = chars@.subrange(from as int, to as int);
    let mut i: usize = to;
    assert(s.take(to - from) =~= s);
    while i > from && is_white_space(chars[i - 1])
        invariant
            from <= i <= to,
            to <= chars.len(),
            s == chars@.subrange(from as int, to as int),
            trailing_space(s) == (to - i) + trailing_space(s.take(i - from)),
        decreases i,
    {
        assert(s.take(i - from).last() == chars[i - 1]);
        assert(s.take(i - from).drop_last() =~= s.take(i - from - 1));
        i -= 1;
    }
    proof {
        if i > from {
            assert(s.take(i - from).last() == chars[i - 1]);
        }
    }
    i
}

/// Tells whether the line from `from` to `to` names the base model.
fn line_names_base(chars: &Vec<char>, from: usize, to: usize) -> (r: bool)
    requires
        from <= to <= chars.len(),
    ensures
        r == names_base(chars@.subrange(from as int, to as int)),
{
    let ghost line = chars@.subrange(from as int, to as int);
    let a = skip_space(chars, from, to);
    let b = skip_space_back(chars, a, to);
    assert(line.skip(a - from) =~= chars@.subrange(a as int, to as int));
    assert(trimmed(line) =~= chars@.subrange(a as int, b as int));
    b - a >= 5 && (chars[a] == 'F' || chars[a] == 'f') && (chars[a + 1] == 'R' || chars[a + 1]
        == 'r') && (chars[a + 2] == 'O' || chars[a + 2] == 'o') && (chars[a + 3] == 'M' || chars[a
        + 3] == 'm') && chars[a + 4] == ' '
}

/// The second word of the line from `from` to `to`, if it has two words.
fn line_second_word(content: &str, chars: &Vec<char>, from: usize, to: usize) -> (r: Option<
    String,
>)
    requires
        chars@ == content@,
        from <= to <= chars.len(),
    ensures
        text_view(r) == second_word(content@.subrange(from as int, to as int)),
{
    let ghost line = content@.subrange(from as int, to as int);
    let a = skip_space(chars, from, to);
    let b = skip_word(chars, a, to);
    let c = skip_space(chars, b, to);
    let d = skip_word(chars, c, to);
    proof {
        let first = line.skip(a - from);
        assert(first =~= content@.subrange(a as int, to as int));
        let gap = first.skip(b - a);
        assert(gap =~= content@.subrange(b as int, to as int));
        let second = gap.skip(c - b);
        assert(second =~= content@.subrange(c as int, to as int));
        assert(second.take(d - c) =~= content@.subrange(c as int, d as int));
    }
    if d > c {
        Some(content.substring_char(c, d).to_owned())
    } else {
        None
    }
}

/// The place of the first line feed from `from` on; the end where there is
/// none.
fn find_line_end(chars: &Vec<char>, from: usize) -> (r: usize)
    requires
        from <= chars.len(),
    ensures
        from <= r <= chars.len(),
        r == from + line_end(chars@.skip(from as int)),
{
    let ghost s = chars@.skip(from as int);
    let n = chars.len();
    let mut i: usize = from;
    assert(s.skip(0) =~= s);
    while i < n && chars[i] != '\n'
        invariant
            n == chars.len(),
            from <= i <= n,
            s == chars@.skip(from as int),
            line_end(s) == (i - from) + line_end(s.skip(i - from)),
        decreases n - i,
    {
        assert(s.skip(i - from)[0] == chars[i as int]);
        assert(s.skip(i - from).drop_first() =~= s.skip(i - from + 1));
        i += 1;
    }
    proof {
        if i < n {
            assert(s.skip(i - from)[0] == chars[i as int]);
        }
    }
    i
}

/// The name of the model that the file with this name describes, if the
/// file holds a model description.
pub fn model_name(file_name: &str) -> (r: Option<String>)
    ensures
        text_view(r) == described_model(file_name@),
{
    let chars = chars_of(file_name);
    let extension = chars_of("Modelfile");
    let n = chars.len();
    let mut i: usize = n;
    assert(file_name@.take(n as int) =~= file_name@);
    while i > 0 && chars[i - 1] != '.'
        invariant
            chars@ == file_name@,
            n == chars.len(),
            i <= n,
            last_dot(file_name@) == last_dot(file_name@.take(i as int)),
        decreases i,
    {
        assert(file_name@.take(i as int).drop_last() =~= file_name@.take(i - 1));
        i -= 1;
    }
    if i <= 1 {
        return None;
    }
    let dot = i - 1;
    assert(file_name@.take(i as int).last() == '.');
    assert(last_dot(file_name@) == dot);
    if n - i != extension.len() {
        return None;
    }
    let mut k: usize = 0;
    while k < n - i
        invariant
            chars@ == file_name@,
            n == chars.len(),
            1 < i <= n,
            last_dot(file_name@) == i - 1,
            extension@ == description_extension(),
            n - i == extension.len(),
            k <= n - i,
            forall|j: int| 0 <= j < k ==> chars[i + j] == extension[j],
        decreases n - i - k,
    {
        if chars[i + k] != extension[k] {
            assert(file_name@.skip(i as int)[k as int] != extension@[k as int]);
            return None;
        }
        k += 1;
    }
    assert(file_name@.skip(i as int) =~= extension@);
    Some(file_name.substring_char(0, dot).to_owned())
}

/// The base model that a description with this content names, if it names
/// one.
pub fn base_model(content: &str) -> (r: Option<String>)
    ensures
        text_view(r) == base_model_of(content@),
{
    let chars = chars_of(content);
    let n = chars.len();
    let mut start: usize = 0;
    assert(content@.skip(0) =~= content@);
    while start < n
        invariant
            chars@ == content@,
            n == chars.len(),
            start <= n,
            base_model_of(content@) == base_model_of(content@.skip(start as int)),
        decreases n - start,
    {
        let ghost rest = content@.skip(start as int);
        let end = find_line_end(&chars, start);
        assert(rest.take(end - start) =~= content@.subrange(start as int, end as int));
        if line_names_base(&chars, start, end) {
            return line_second_word(content, &chars, start, end);
        }
        if end >= n {
            return None;
        }
        assert(rest.skip(end - start + 1) =~= content@.skip(end + 1));
        start = end + 1;
    }
    None
}

/// What is known of a description file once the endpoint's models are
/// listed: the base model that it names, and whether that is among them.
pub fn modelfile_status(file: &ModelFile, models: &Vec<String>) -> (r: ModelFileInfo)
    ensures
        r@ == status_of(file@, views(models@)),
{
    let base = base_model(file.content.as_str());
    let available = match &base {
        Some(name) => check_base_model(models, name.as_str()),
        None => false,
    };
    ModelFileInfo {
        name: file.name.clone(),
        path: file.path.clone(),
        content: file.content.clone(),
        base_model: base,
        is_base_available: available,
    }
}

/// What is known of each description file, in order. Where asking the
/// endpoint for its models failed, no base model counts as available.
pub fn get_modelfiles_with_status(
    modelfiles: &Vec<ModelFile>,
    listed: Result<Vec<String>, AppError>,
) -> (r: Vec<ModelFileInfo>)
    ensures
        views(r@) == views(modelfiles@).map_values(
            |f: ModelFileView| status_of(f, listed_models(listed)),
        ),
{
    let models = match listed {
        Ok(models) => models,
        Err(_) => Vec::new(),
    };
    let n = modelfiles.len();
    let mut out: Vec<ModelFileInfo> = Vec::new();
    let mut i: usize = 0;
    while i < n
        invariant
            n == modelfiles.len(),
            i <= n,
            out.len() == i,
            views(models@) == listed_models(listed),
            forall|k: int|
                0 <= k < i ==> (#[trigger] out[k])@ == status_of(
                    modelfiles[k]@,
                    listed_models(listed),
                ),
        decreases n - i,
    {
        out.push(modelfile_status(&modelfiles[i], &models));
        i += 1;
    }
    assert(views(out@) =~= views(modelfiles@).map_values(
        |f: ModelFileView| status_of(f, listed_models(listed)),
    ));
    out
}

} // verus!
