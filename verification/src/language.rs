//! Languages, as told from a file's name, and the comment syntax of each.

use crate::chars::{chars_of, find_last, is_str, last_index_of, lemma_last_index_of, lowercase,
    lowercase_of, starts_with};
use vstd::prelude::*;

verus! {

/// The language a file is written in, as far as its name tells.
#[derive(Debug, Clone, Copy, PartialEq, Eq, Hash, Structural)]
pub enum Language {
    Rust,
    CCpp,
    Go,
    Python,
    JavaScript,
    TypeScript,
    Java,
    CMake,
    Shell,
    Ruby,
    Markdown,
    Text,
    Dotfiles,
    Unknown,
}

/// What a changed line holds.
#[derive(Debug, Clone, Copy, PartialEq, Eq, Hash, Structural)]
pub enum LineType {
    Code,
    Comment,
}

/// The language that a lower-case file extension stands for.
pub open spec fn language_of_extension(ext: Seq<char>) -> Language {
    if ext == "rs"@ {
        Language::Rust
    } else if ext == "c"@ || ext == "h"@ || ext == "cpp"@ || ext == "cc"@ || ext == "cxx"@ || ext
        == "hpp"@ || ext == "hxx"@ {
        Language::CCpp
    } else if ext == "go"@ {
        Language::Go
    } else if ext == "py"@ {
        Language::Python
    } else if ext == "js"@ || ext == "jsx"@ {
        Language::JavaScript
    } else if ext == "ts"@ || ext == "tsx"@ {
        Language::TypeScript
    } else if ext == "java"@ {
        Language::Java
    } else if ext == "cmake"@ {
        Language::CMake
    } else if ext == "sh"@ || ext == "bash"@ {
        Language::Shell
    } else if ext == "rb"@ {
        Language::Ruby
    } else if ext == "md"@ || ext == "markdown"@ {
        Language::Markdown
    } else if ext == "txt"@ {
        Language::Text
    } else {
        Language::Unknown
    }
}

/// A name that starts with a dot and holds no other dot.
pub open spec fn is_dotfile(name: Seq<char>) -> bool {
    &&& name.len() > 0
    &&& name[0] == '.'
    &&& forall|i: int| 1 <= i < name.len() ==> name[i] != '.'
}

/// The language of a file name. The build file of CMake is known by its whole
/// name, whatever its case; a dotfile by its shape; every other name by the
/// lower-case form of what follows its last dot.
pub open spec fn language_of_filename(name: Seq<char>) -> Language {
    if lowercase(name) == "cmakelists.txt"@ {
        Language::CMake
    } else if is_dotfile(name) {
        Language::Dotfiles
    } else {
        match last_index_of(name, '.') {
            Some(dot) => language_of_extension(lowercase(name.skip(dot + 1))),
            None => Language::Unknown,
        }
    }
}

/// The strings that open a whole-line comment in a language.
pub open spec fn comment_prefix_list(language: Language) -> Seq<Seq<char>> {
    match language {
        Language::Rust
        | Language::CCpp
        | Language::Go
        | Language::JavaScript
        | Language::TypeScript
        | Language::Java
        | Language::Unknown => seq!["//"@],
        Language::Python
        | Language::CMake
        | Language::Shell
        | Language::Ruby
        | Language::Dotfiles => seq!["#"@],
        Language::Markdown | Language::Text => seq![],
    }
}

/// The name under which a language is shown.
pub open spec fn display_name(language: Language) -> Seq<char> {
    match language {
        Language::Rust => "Rust"@,
        Language::CCpp => "C/C++"@,
        Language::Go => "Go"@,
        Language::Python => "Python"@,
        Language::JavaScript => "JavaScript"@,
        Language::TypeScript => "TypeScript"@,
        Language::Java => "Java"@,
        Language::CMake => "CMake"@,
        Language::Shell => "Shell"@,
        Language::Ruby => "Ruby"@,
        Language::Markdown => "Markdown"@,
        Language::Text => "Text"@,
        Language::Dotfiles => "Dotfiles"@,
        Language::Unknown => "Unknown"@,
    }
}

/// How many languages there are.
pub const LANGUAGE_COUNT: usize = 14;

/// All languages, in the ascending order of their display names.
pub open spec fn languages_by_name() -> Seq<Language> {
    seq![
        Language::CCpp,
        Language::CMake,
        Language::Dotfiles,
        Language::Go,
        Language::Java,
        Language::JavaScript,
        Language::Markdown,
        Language::Python,
        Language::Ruby,
        Language::Rust,
        Language::Shell,
        Language::Text,
        Language::TypeScript,
        Language::Unknown,
    ]
}

/// The place of a language in [`languages_by_name`].
pub open spec fn rank(language: Language) -> int {
    match language {
        Language::CCpp => 0,
        Language::CMake => 1,
        Language::Dotfiles => 2,
        Language::Go => 3,
        Language::Java => 4,
        Language::JavaScript => 5,
        Language::Markdown => 6,
        Language::Python => 7,
        Language::Ruby => 8,
        Language::Rust => 9,
        Language::Shell => 10,
        Language::Text => 11,
        Language::TypeScript => 12,
        Language::Unknown => 13,
    }
}

/// [`rank`] and [`languages_by_name`] are inverse to each other, so every
/// language stands in the list exactly once.
pub proof fn lemma_rank_inverse()
    ensures
        languages_by_name().len() == LANGUAGE_COUNT,
        forall|language: Language|
            0 <= #[trigger] rank(language) < LANGUAGE_COUNT && languages_by_name()[rank(language)]
                == language,
        forall|i: int|
            0 <= i < LANGUAGE_COUNT ==> rank(#[trigger] languages_by_name()[i]) == i,
{
}

/// The order of strings: the first character in which two texts differ
/// decides, by its code, and a text comes before every text that it begins.
pub open spec fn precedes(a: Seq<char>, b: Seq<char>) -> bool
    decreases a.len(),
{
    if b.len() == 0 {
        false
    } else if a.len() == 0 {
        true
    } else if a[0] == b[0] {
        precedes(a.drop_first(), b.drop_first())
    } else {
        (a[0] as u32) < (b[0] as u32)
    }
}

/// The order of strings is transitive.
pub proof fn lemma_precedes_transitive(a: Seq<char>, b: Seq<char>, c: Seq<char>)
    requires
        precedes(a, b),
        precedes(b, c),
    ensures
        precedes(a, c),
    decreases a.len(),
{
    if a.len() > 0 && a[0] == b[0] && b[0] == c[0] {
        lemma_precedes_transitive(a.drop_first(), b.drop_first(), c.drop_first());
    }
}

/// Each language's display name comes before that of the next language in
/// [`languages_by_name`].
pub proof fn lemma_next_name_follows(i: int)
    requires
        0 <= i < LANGUAGE_COUNT - 1,
    ensures
        precedes(display_name(languages_by_name()[i]), display_name(languages_by_name()[i + 1])),
{
    reveal_strlit("Rust");
    reveal_strlit("C/C++");
    reveal_strlit("Go");
    reveal_strlit("Python");
    reveal_strlit("JavaScript");
    reveal_strlit("TypeScript");
    reveal_strlit("Java");
    reveal_strlit("CMake");
    reveal_strlit("Shell");
    reveal_strlit("Ruby");
    reveal_strlit("Markdown");
    reveal_strlit("Text");
    reveal_strlit("Dotfiles");
    reveal_strlit("Unknown");
    reveal_with_fuel(precedes, 6);
}

/// The display names ascend along [`languages_by_name`]: of two languages,
/// the one that stands earlier in the list has the name that comes first.
pub proof fn lemma_names_ascend(i: int, j: int)
    requires
        0 <= i < j < LANGUAGE_COUNT,
    ensures
        precedes(display_name(languages_by_name()[i]), display_name(languages_by_name()[j])),
    decreases j - i,
{
    lemma_next_name_follows(j - 1);
    if i < j - 1 {
        lemma_names_ascend(i, j - 1);
        lemma_precedes_transitive(
            display_name(languages_by_name()[i]),
            display_name(languages_by_name()[j - 1]),
            display_name(languages_by_name()[j]),
        );
    }
}

/// A line is a comment when it begins with one of its language's comment
/// prefixes, and code otherwise.
pub open spec fn line_type(line: Seq<char>, language: Language) -> LineType {
    if exists|i: int|
        0 <= i < comment_prefix_list(language).len() && (
        #[trigger] comment_prefix_list(language)[i]).is_prefix_of(line) {
        LineType::Comment
    } else {
        LineType::Code
    }
}

/// Lines of Markdown and of plain text are never comments.
pub proof fn lemma_prose_is_code(line: Seq<char>)
    ensures
        line_type(line, Language::Markdown) == LineType::Code,
        line_type(line, Language::Text) == LineType::Code,
{
}

/// A line that begins with a language's first comment prefix is a comment in
/// that language.
pub proof fn lemma_prefixed_line_is_comment(line: Seq<char>, language: Language)
    requires
        comment_prefix_list(language).len() > 0,
        comment_prefix_list(language)[0].is_prefix_of(line),
    ensures
        line_type(line, language) == LineType::Comment,
{
}

impl Language {
    /// The language that a file extension stands for. The extension comes
    /// in lower case and without its dot.
    pub fn from_extension(ext: &[char]) -> (language: Language)
        ensures
            language == language_of_extension(ext@),
    {
        if is_str(ext, "rs") {
            Language::Rust
        } else if is_str(ext, "c") || is_str(ext, "h") || is_str(ext, "cpp") || is_str(ext, "cc")
            || is_str(ext, "cxx") || is_str(ext, "hpp") || is_str(ext, "hxx") {
            Language::CCpp
        } else if is_str(ext, "go") {
            Language::Go
        } else if is_str(ext, "py") {
            Language::Python
        } else if is_str(ext, "js") || is_str(ext, "jsx") {
            Language::JavaScript
        } else if is_str(ext, "ts") || is_str(ext, "tsx") {
            Language::TypeScript
        } else if is_str(ext, "java") {
            Language::Java
        } else if is_str(ext, "cmake") {
            Language::CMake
        } else if is_str(ext, "sh") || is_str(ext, "bash") {
            Language::Shell
        } else if is_str(ext, "rb") {
            Language::Ruby
        } else if is_str(ext, "md") || is_str(ext, "markdown") {
            Language::Markdown
        } else if is_str(ext, "txt") {
            Language::Text
        } else {
            Language::Unknown
        }
    }

    /// The language of a file, given the file's name without its directories.
    pub fn from_filename(filename: &str) -> (language: Language)
        ensures
            language == language_of_filename(filename@),
    {
        let name = chars_of(filename);
        Language::from_chars(name.as_slice())
    }

    /// As [`Language::from_filename`], on a name held as characters.
    pub fn from_chars(name: &[char]) -> (language: Language)
        ensures
            language == language_of_filename(name@),
    {
        let lower = lowercase_of(name);
        if is_str(lower.as_slice(), "cmakelists.txt") {
            return Language::CMake;
        }
        proof {
            lemma_last_index_of(name@, '.');
        }
        match find_last(name, '.') {
            Some(dot) => {
                assert(dot < name.len());
                if dot == 0 {
                    Language::Dotfiles
                } else {
                    let ext = lowercase_of(&name[dot + 1..name.len()]);
                    Language::from_extension(ext.as_slice())
                }
            },
            None => {
                Language::Unknown
            },
        }
    }

    /// The place of this language when all are ordered by display name.
    pub fn rank(&self) -> (place: usize)
        ensures
            place == rank(*self),
            place < LANGUAGE_COUNT,
    {
        match self {
            Language::CCpp => 0,
            Language::CMake => 1,
            Language::Dotfiles => 2,
            Language::Go => 3,
            Language::Java => 4,
            Language::JavaScript => 5,
            Language::Markdown => 6,
            Language::Python => 7,
            Language::Ruby => 8,
            Language::Rust => 9,
            Language::Shell => 10,
            Language::Text => 11,
            Language::TypeScript => 12,
            Language::Unknown => 13,
        }
    }

    /// The language at a place in the order of display names, for places
    /// below [`LANGUAGE_COUNT`].
    pub fn ranked(place: usize) -> (language: Option<Language>)
        ensures
            match language {
                Some(found) => place < LANGUAGE_COUNT && languages_by_name()[place as int]
                    == found && rank(found) == place,
                None => place >= LANGUAGE_COUNT,
            },
    {
        match place {
            0 => Some(Language::CCpp),
            1 => Some(Language::CMake),
            2 => Some(Language::Dotfiles),
            3 => Some(Language::Go),
            4 => Some(Language::Java),
            5 => Some(Language::JavaScript),
            6 => Some(Language::Markdown),
            7 => Some(Language::Python),
            8 => Some(Language::Ruby),
            9 => Some(Language::Rust),
            10 => Some(Language::Shell),
            11 => Some(Language::Text),
            12 => Some(Language::TypeScript),
            13 => Some(Language::Unknown),
            _ => None,
        }
    }

    /// The strings that open a whole-line comment in this language.
    pub fn comment_prefixes(&self) -> (prefixes: Vec<&'static str>)
        ensures
            prefixes@.len() == comment_prefix_list(*self).len(),
            forall|i: int|
                0 <= i < prefixes@.len() ==> (#[trigger] prefixes@[i])@ == comment_prefix_list(
                    *self,
                )[i],
    {
        match self {
            Language::Rust
            | Language::CCpp
            | Language::Go
            | Language::JavaScript
            | Language::TypeScript
            | Language::Java
            | Language::Unknown => vec!["//"],
            Language::Python
            | Language::CMake
            | Language::Shell
            | Language::Ruby
            | Language::Dotfiles => vec!["#"],
            Language::Markdown | Language::Text => vec![],
        }
    }

    /// The name under which this language is shown.
    pub fn name(&self) -> (name: &'static str)
        ensures
            name@ == display_name(*self),
    {
        match self {
            Language::Rust => "Rust",
            Language::CCpp => "C/C++",
            Language::Go => "Go",
            Language::Python => "Python",
            Language::JavaScript => "JavaScript",
            Language::TypeScript => "TypeScript",
            Language::Java => "Java",
            Language::CMake => "CMake",
            Language::Shell => "Shell",
            Language::Ruby => "Ruby",
            Language::Markdown => "Markdown",
            Language::Text => "Text",
            Language::Dotfiles => "Dotfiles",
            Language::Unknown => "Unknown",
        }
    }
}

/// Tells a comment from code, on a line held as characters and already
/// trimmed.
pub fn line_type_of(line: &[char], language: Language) -> (kind: LineType)
    ensures
        kind == line_type(line@, language),
{
    let prefixes = language.comment_prefixes();
    let mut i: usize = 0;
    while i < prefixes.len()
        invariant
            i <= prefixes@.len(),
            prefixes@.len() == comment_prefix_list(language).len(),
            forall|k: int|
                0 <= k < prefixes@.len() ==> (#[trigger] prefixes@[k])@ == comment_prefix_list(
                    language,
                )[k],
            forall|k: int|
                0 <= k < i ==> !(#[trigger] comment_prefix_list(language)[k]).is_prefix_of(line@),
        decreases prefixes.len() - i,
    {
        if starts_with(line, prefixes[i]) {
            return LineType::Comment;
        }
        i += 1;
    }
    LineType::Code
}

/// Tells a comment from code. The line is taken as it stands: callers trim it
/// first. Only a prefix at the very start of the line makes a comment.
pub fn classify_line(line: &str, language: Language) -> (kind: LineType)
    ensures
        kind == line_type(line@, language),
{
    let text = chars_of(line);
    line_type_of(text.as_slice(), language)
}

} // verus!
