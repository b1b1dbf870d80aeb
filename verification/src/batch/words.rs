//! Commands written as lines of words, as on a command line.

use vstd::prelude::*;
use vstd::string::*;
use super::op::{
    flag_name, flag_word, op_name, op_views, op_word, BatchError, BatchErrorView, BatchOp,
    BatchOpView, BatchParseError, BatchParseErrorView, Field, OpKind,
};
use crate::text::{
    chars_of, lines_of, option_text, parse_u32, parse_u32_at, split_lines, string_of, texts, trim,
    trim_chars, NumberError,
};

verus! {

/// The values that the flags `--type`, `--title` and `--desc` have given so far.
pub struct Fields {
    pub typ: Option<Seq<char>>,
    pub title: Option<Seq<char>>,
    pub desc: Option<Seq<char>>,
}

/// Reads the words from index `i` on for the flags `--type`, `--title` and
/// `--desc`: each takes the next word for its value, whatever that word is;
/// a later value for the same flag replaces the earlier one; other words are
/// passed over. A flag as the last word fails.
pub open spec fn scan_fields(words: Seq<Seq<char>>, i: int, so_far: Fields) -> Result<
    Fields,
    Field,
>
    decreases words.len() - i,
{
    if i < 0 || i >= words.len() {
        Ok(so_far)
    } else if words[i] == flag_name(Field::Type) {
        if i + 1 < words.len() {
            scan_fields(words, i + 2, Fields { typ: Some(words[i + 1]), ..so_far })
        } else {
            Err(Field::Type)
        }
    } else if words[i] == flag_name(Field::Title) {
        if i + 1 < words.len() {
            scan_fields(words, i + 2, Fields { title: Some(words[i + 1]), ..so_far })
        } else {
            Err(Field::Title)
        }
    } else if words[i] == flag_name(Field::Desc) {
        if i + 1 < words.len() {
            scan_fields(words, i + 2, Fields { desc: Some(words[i + 1]), ..so_far })
        } else {
            Err(Field::Desc)
        }
    } else {
        scan_fields(words, i + 1, so_far)
    }
}

/// The index of the first word from `i` on that is `flag`, if there is one.
pub open spec fn first_flag(words: Seq<Seq<char>>, flag: Seq<char>, i: int) -> Option<int>
    decreases words.len() - i,
{
    if i < 0 || i >= words.len() {
        None
    } else if words[i] == flag {
        Some(i)
    } else {
        first_flag(words, flag, i + 1)
    }
}

/// Whether one of the words is `word`.
pub open spec fn has_word(words: Seq<Seq<char>>, word: Seq<char>) -> bool {
    words.contains(word)
}

/// The id that a command names with its second word.
pub open spec fn id_of_words(words: Seq<Seq<char>>, op: OpKind) -> Result<
    u32,
    BatchParseErrorView,
> {
    if words.len() < 2 {
        Err(BatchParseErrorView::MissingId { op })
    } else {
        match parse_u32(words[1]) {
            Ok(id) => Ok(id),
            Err(e) => Err(BatchParseErrorView::BadNumber(e)),
        }
    }
}

/// `s`, or the empty text where there is none.
pub open spec fn or_empty(s: Option<Seq<char>>) -> Seq<char> {
    match s {
        Some(s) => s,
        None => Seq::empty(),
    }
}

/// The command that the words of a line denote.
pub open spec fn op_of_words(words: Seq<Seq<char>>) -> Result<BatchOpView, BatchParseErrorView> {
    if words.len() == 0 {
        Err(BatchParseErrorView::EmptyLine)
    } else if words[0] == op_name(OpKind::Add) {
        match scan_fields(words, 1, Fields { typ: None, title: None, desc: None }) {
            Err(flag) => Err(BatchParseErrorView::FlagWithoutValue { op: OpKind::Add, flag }),
            Ok(fields) => if or_empty(fields.typ).len() == 0 || or_empty(fields.title).len() == 0
                || or_empty(fields.desc).len() == 0 {
                Err(BatchParseErrorView::AddIncomplete)
            } else {
                Ok(
                    BatchOpView::Add {
                        type_prefix: or_empty(fields.typ),
                        title: or_empty(fields.title),
                        desc: or_empty(fields.desc),
                    },
                )
            },
        }
    } else if words[0] == op_name(OpKind::Patch) {
        match id_of_words(words, OpKind::Patch) {
            Err(e) => Err(e),
            Ok(id) => match scan_fields(words, 2, Fields { typ: None, title: None, desc: None }) {
                Err(flag) => Err(
                    BatchParseErrorView::FlagWithoutValue { op: OpKind::Patch, flag },
                ),
                Ok(fields) => Ok(
                    BatchOpView::Patch {
                        id,
                        type_prefix: fields.typ,
                        title: fields.title,
                        desc: fields.desc,
                    },
                ),
            },
        }
    } else if words[0] == op_name(OpKind::Put) {
        match id_of_words(words, OpKind::Put) {
            Err(e) => Err(e),
            Ok(id) => match first_flag(words, flag_name(Field::Line), 2) {
                None => Err(BatchParseErrorView::PutWithoutLine),
                Some(at) => if at + 1 >= words.len() {
                    Err(
                        BatchParseErrorView::FlagWithoutValue {
                            op: OpKind::Put,
                            flag: Field::Line,
                        },
                    )
                } else if words[at + 1].len() == 0 {
                    Err(BatchParseErrorView::PutWithoutLine)
                } else {
                    Ok(BatchOpView::Put { id, line: words[at + 1] })
                },
            },
        }
    } else if words[0] == op_name(OpKind::Delete) {
        match id_of_words(words, OpKind::Delete) {
            Err(e) => Err(e),
            Ok(id) => Ok(BatchOpView::Delete { id, force: has_word(words, "--force"@) }),
        }
    } else if words[0] == op_name(OpKind::Deprecate) {
        match id_of_words(words, OpKind::Deprecate) {
            Err(e) => Err(e),
            Ok(id) => match first_flag(words, flag_name(Field::To), 2) {
                None => Err(BatchParseErrorView::DeprecateWithoutTarget),
                Some(at) => if at + 1 >= words.len() {
                    Err(
                        BatchParseErrorView::FlagWithoutValue {
                            op: OpKind::Deprecate,
                            flag: Field::To,
                        },
                    )
                } else {
                    match parse_u32(words[at + 1]) {
                        Ok(to) => Ok(BatchOpView::Deprecate { id, to }),
                        Err(e) => Err(BatchParseErrorView::BadNumber(e)),
                    }
                },
            },
        }
    } else if words[0] == op_name(OpKind::Verify) {
        match id_of_words(words, OpKind::Verify) {
            Err(e) => Err(e),
            Ok(id) => Ok(BatchOpView::Verify { id }),
        }
    } else {
        Err(BatchParseErrorView::UnknownCommand { name: words[0] })
    }
}

pub(crate) fn is_word(word: &String, expected: &str) -> (b: bool)
    ensures
        b == (word@ == expected@),
{
    *word == String::from_str(expected)
}

fn number_of_word(word: &String) -> (r: Result<u32, BatchParseError>)
    ensures
        match r {
            Ok(n) => parse_u32(word@) == Ok::<u32, NumberError>(n),
            Err(e) => parse_u32(word@) is Err && e@ == BatchParseErrorView::BadNumber(
                parse_u32(word@)->Err_0,
            ),
        },
{
    let cs = chars_of(word.as_str());
    assert(cs@.subrange(0, cs.len() as int) =~= cs@);
    match parse_u32_at(&cs, 0, cs.len()) {
        Ok(n) => Ok(n),
        Err(e) => Err(BatchParseError::BadNumber(e)),
    }
}

fn id_of(words: &Vec<String>, op: OpKind) -> (r: Result<u32, BatchParseError>)
    ensures
        match r {
            Ok(id) => id_of_words(texts(words@), op) == Ok::<u32, BatchParseErrorView>(id),
            Err(e) => id_of_words(texts(words@), op) == Err::<u32, BatchParseErrorView>(e@),
        },
{
    if words.len() < 2 {
        return Err(BatchParseError::MissingId { op });
    }
    assert(texts(words@)[1] == words@[1]@);
    number_of_word(&words[1])
}

/// The strings that the flags have given so far.
struct FieldValues {
    typ: Option<String>,
    title: Option<String>,
    desc: Option<String>,
}

impl FieldValues {
    spec fn fields(&self) -> Fields {
        Fields { typ: option_text(self.typ), title: option_text(self.title), desc: option_text(self.desc) }
    }
}

fn scan_flags(words: &Vec<String>, from: usize) -> (r: Result<FieldValues, Field>)
    ensures
        match r {
            Ok(values) => scan_fields(
                texts(words@),
                from as int,
                Fields { typ: None, title: None, desc: None },
            ) == Ok::<Fields, Field>(values.fields()),
            Err(flag) => scan_fields(
                texts(words@),
                from as int,
                Fields { typ: None, title: None, desc: None },
            ) == Err::<Fields, Field>(flag),
        },
{
    let mut values = FieldValues { typ: None, title: None, desc: None };
    let flag_type = flag_word(Field::Type);
    let flag_title = flag_word(Field::Title);
    let flag_desc = flag_word(Field::Desc);
    let ghost all = texts(words@);
    let ghost start = Fields { typ: None, title: None, desc: None };
    let mut i = from;
    while i < words.len()
        invariant
            all == texts(words@),
            start == (Fields { typ: None, title: None, desc: None }),
            flag_type@ == flag_name(Field::Type),
            flag_title@ == flag_name(Field::Title),
            flag_desc@ == flag_name(Field::Desc),
            scan_fields(all, i as int, values.fields()) == scan_fields(all, from as int, start),
        decreases words.len() - i,
    {
        assert(all[i as int] == words@[i as int]@);
        if words[i] == flag_type {
            if i + 1 < words.len() {
                assert(all[i + 1] == words@[i + 1]@);
                values.typ = Some(words[i + 1].clone());
                i = i + 2;
            } else {
                return Err(Field::Type);
            }
        } else if words[i] == flag_title {
            if i + 1 < words.len() {
                assert(all[i + 1] == words@[i + 1]@);
                values.title = Some(words[i + 1].clone());
                i = i + 2;
            } else {
                return Err(Field::Title);
            }
        } else if words[i] == flag_desc {
            if i + 1 < words.len() {
                assert(all[i + 1] == words@[i + 1]@);
                values.desc = Some(words[i + 1].clone());
                i = i + 2;
            } else {
                return Err(Field::Desc);
            }
        } else {
            i = i + 1;
        }
    }
    Ok(values)
}

fn find_flag(words: &Vec<String>, flag: &String, from: usize) -> (r: Option<usize>)
    ensures
        match r {
            Some(at) => first_flag(texts(words@), flag@, from as int) == Some(at as int) && at
                < words.len(),
            None => first_flag(texts(words@), flag@, from as int) is None,
        },
{
    let ghost all = texts(words@);
    let mut i = from;
    while i < words.len()
        invariant
            all == texts(words@),
            first_flag(all, flag@, i as int) == first_flag(all, flag@, from as int),
        decreases words.len() - i,
    {
        assert(all[i as int] == words@[i as int]@);
        if words[i] == *flag {
            return Some(i);
        }
        i = i + 1;
    }
    None
}

fn words_contain(words: &Vec<String>, word: &str) -> (b: bool)
    ensures
        b == has_word(texts(words@), word@),
{
    let wanted = String::from_str(word);
    let mut i: usize = 0;
    while i < words.len()
        invariant
            i <= words.len(),
            wanted@ == word@,
            forall|j: int| 0 <= j < i ==> texts(words@)[j] != word@,
        decreases words.len() - i,
    {
        if words[i] == wanted {
            assert(texts(words@)[i as int] == word@);
            return true;
        }
        i = i + 1;
    }
    false
}

fn text_or_empty(s: Option<String>) -> (r: String)
    ensures
        r@ == or_empty(option_text(s)),
{
    match s {
        Some(s) => s,
        None => String::new(),
    }
}

/// The command that the words of a line denote; see [`op_of_words`].
pub fn batch_op_of_words(words: &Vec<String>) -> (r: Result<BatchOp, BatchParseError>)
    ensures
        match r {
            Ok(op) => op_of_words(texts(words@)) == Ok::<BatchOpView, BatchParseErrorView>(op@),
            Err(e) => op_of_words(texts(words@)) == Err::<BatchOpView, BatchParseErrorView>(e@),
        },
{
    if words.len() == 0 {
        return Err(BatchParseError::EmptyLine);
    }
    let ghost all = texts(words@);
    assert(all[0] == words@[0]@);
    let first = &words[0];
    if is_word(first, op_word(OpKind::Add)) {
        match scan_flags(words, 1) {
            Err(flag) => Err(BatchParseError::FlagWithoutValue { op: OpKind::Add, flag }),
            Ok(values) => {
                let type_prefix = text_or_empty(values.typ);
                let title = text_or_empty(values.title);
                let desc = text_or_empty(values.desc);
                if type_prefix.as_str().is_empty() || title.as_str().is_empty()
                    || desc.as_str().is_empty() {
                    Err(BatchParseError::AddIncomplete)
                } else {
                    Ok(BatchOp::Add { type_prefix, title, desc })
                }
            },
        }
    } else if is_word(first, op_word(OpKind::Patch)) {
        let id = id_of(words, OpKind::Patch)?;
        match scan_flags(words, 2) {
            Err(flag) => Err(BatchParseError::FlagWithoutValue { op: OpKind::Patch, flag }),
            Ok(values) => Ok(
                BatchOp::Patch {
                    id,
                    type_prefix: values.typ,
                    title: values.title,
                    desc: values.desc,
                },
            ),
        }
    } else if is_word(first, op_word(OpKind::Put)) {
        let id = id_of(words, OpKind::Put)?;
        match find_flag(words, &flag_word(Field::Line), 2) {
            None => Err(BatchParseError::PutWithoutLine),
            Some(at) => {
                if at + 1 >= words.len() {
                    Err(BatchParseError::FlagWithoutValue { op: OpKind::Put, flag: Field::Line })
                } else {
                    assert(all[at + 1] == words@[at + 1]@);
                    if words[at + 1].as_str().is_empty() {
                        Err(BatchParseError::PutWithoutLine)
                    } else {
                        Ok(BatchOp::Put { id, line: words[at + 1].clone() })
                    }
                }
            },
        }
    } else if is_word(first, op_word(OpKind::Delete)) {
        let id = id_of(words, OpKind::Delete)?;
        Ok(BatchOp::Delete { id, force: words_contain(words, "--force") })
    } else if is_word(first, op_word(OpKind::Deprecate)) {
        let id = id_of(words, OpKind::Deprecate)?;
        match find_flag(words, &flag_word(Field::To), 2) {
            None => Err(BatchParseError::DeprecateWithoutTarget),
            Some(at) => {
                if at + 1 >= words.len() {
                    Err(
                        BatchParseError::FlagWithoutValue {
                            op: OpKind::Deprecate,
                            flag: Field::To,
                        },
                    )
                } else {
                    assert(all[at + 1] == words@[at + 1]@);
                    match number_of_word(&words[at + 1]) {
                        Ok(to) => Ok(BatchOp::Deprecate { id, to }),
                        Err(e) => Err(e),
                    }
                }
            },
        }
    } else if is_word(first, op_word(OpKind::Verify)) {
        let id = id_of(words, OpKind::Verify)?;
        Ok(BatchOp::Verify { id })
    } else {
        Err(BatchParseError::UnknownCommand { name: first.clone() })
    }
}

/// `shell_words::ParseError`, the one error of `shell_words::split`. It
/// holds nothing.
#[verifier::external_type_specification]
#[verifier::external_body]
pub struct ExShellParseError(shell_words::ParseError);

/// The words that `shell_words::split` splits a line into, by the quoting
/// rules of a shell; `None` where a quote is never closed.
pub uninterp spec fn shell_split(line: Seq<char>) -> Option<Seq<Seq<char>>>;

/// Calls `shell_words::split`, which either gives the words of the line or
/// fails; which of the two, and the words, depend on the line alone.
#[verifier::external_body]
pub(crate) fn split_words(line: &str) -> (r: Result<Vec<String>, shell_words::ParseError>)
    ensures
        match r {
            Ok(words) => shell_split(line@) == Some(texts(words@)),
            Err(_) => shell_split(line@) is None,
        },
{
    shell_words::split(line)
}

/// The command that a line denotes: the line is split into words as a
/// shell does it, and the words are read by [`op_of_words`].
pub open spec fn op_of_line(line: Seq<char>) -> Result<BatchOpView, BatchParseErrorView> {
    match shell_split(line) {
        Some(words) => op_of_words(words),
        None => Err(BatchParseErrorView::MissingClosingQuote),
    }
}

/// Reads one line of a batch, such as `add --type WF --title X --desc Y`.
pub fn parse_batch_op_line(line: &str) -> (r: Result<BatchOp, BatchParseError>)
    ensures
        match r {
            Ok(op) => op_of_line(line@) == Ok::<BatchOpView, BatchParseErrorView>(op@),
            Err(e) => op_of_line(line@) == Err::<BatchOpView, BatchParseErrorView>(e@),
        },
{
    match split_words(line) {
        Ok(words) => batch_op_of_words(&words),
        Err(_) => Err(BatchParseError::MissingClosingQuote),
    }
}

/// Whether a line of a batch holds no command: it is blank, or a comment
/// that begins with `#`.
pub open spec fn is_skipped(line: Seq<char>) -> bool {
    trim(line).len() == 0 || trim(line)[0] == '#'
}

/// The commands on the first `n` lines of a batch, or the first line that
/// is no command. Blank lines and comments are passed over; every other
/// line is trimmed and read by [`op_of_line`].
pub open spec fn ops_of_lines(lines: Seq<Seq<char>>, n: int) -> Result<
    Seq<BatchOpView>,
    BatchErrorView,
>
    decreases n,
{
    if n <= 0 {
        Ok(Seq::empty())
    } else {
        match ops_of_lines(lines, n - 1) {
            Err(e) => Err(e),
            Ok(ops) => if is_skipped(lines[n - 1]) {
                Ok(ops)
            } else {
                match op_of_line(trim(lines[n - 1])) {
                    Ok(op) => Ok(ops.push(op)),
                    Err(error) => Err(BatchErrorView::Line { number: n as usize, error }),
                }
            },
        }
    }
}

/// Once a line is no command, reading has failed with that line, however
/// many lines follow.
pub proof fn lemma_ops_of_lines_error_stays(lines: Seq<Seq<char>>, n: int, m: int)
    requires
        n <= m,
        ops_of_lines(lines, n) is Err,
    ensures
        ops_of_lines(lines, m) == ops_of_lines(lines, n),
    decreases m - n,
{
    if n < m {
        lemma_ops_of_lines_error_stays(lines, n, m - 1);
    }
}

/// Reads a batch that holds one command on each line.
pub fn parse_batch_lines(input: &str) -> (r: Result<Vec<BatchOp>, BatchError>)
    ensures
        match r {
            Ok(ops) => ops_of_lines(lines_of(input@), lines_of(input@).len() as int) == Ok::<
                Seq<BatchOpView>,
                BatchErrorView,
            >(op_views(ops@)),
            Err(e) => ops_of_lines(lines_of(input@), lines_of(input@).len() as int) == Err::<
                Seq<BatchOpView>,
                BatchErrorView,
            >(e@),
        },
{
    let lines = split_lines(input);
    let ghost all = texts(lines@);
    let mut ops: Vec<BatchOp> = Vec::new();
    let mut i: usize = 0;
    assert(op_views(ops@) =~= Seq::<BatchOpView>::empty());
    while i < lines.len()
        invariant
            i <= lines.len(),
            all == texts(lines@),
            all == lines_of(input@),
            ops_of_lines(all, i as int) == Ok::<Seq<BatchOpView>, BatchErrorView>(op_views(ops@)),
        decreases lines.len() - i,
    {
        let cs = chars_of(lines[i].as_str());
        assert(cs@.subrange(0, cs.len() as int) =~= cs@);
        assert(all[i as int] == cs@);
        let trimmed = trim_chars(&cs, 0, cs.len());
        if trimmed.len() > 0 && trimmed[0] != '#' {
            let text = string_of(&trimmed);
            match parse_batch_op_line(text.as_str()) {
                Ok(op) => {
                    let ghost before = op_views(ops@);
                    let ghost op_view = op@;
                    ops.push(op);
                    assert(op_views(ops@) =~= before.push(op_view));
                },
                Err(error) => {
                    proof {
                        assert(ops_of_lines(all, i + 1) is Err);
                        lemma_ops_of_lines_error_stays(all, i + 1, all.len() as int);
                    }
                    return Err(BatchError::Line { number: i + 1, error });
                },
            }
        }
        i = i + 1;
    }
    Ok(ops)
}

} // verus!
