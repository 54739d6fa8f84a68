//! The file tools that the agent may call: their arguments and their logic.

pub use crate::agent::pattern::{regex_accepts, regex_error_message, regex_finds, LinePattern};
use crate::agent::pattern::build_pattern;
use crate::text::{decimal, join_lines, join_with_newlines, push_decimal, string_views};
use vstd::prelude::*;

verus! {

/// Why a tool call failed: reading a file, walking a directory, or an
/// invalid regular expression; each with the error's text.
#[derive(Debug)]
pub enum ToolError {
    Io(String),
    Walk(String),
    InvalidPattern(String),
}

/// What walking a directory tree yields for one entry: a file with its
/// path, something that is not a file, or an error with its text.
#[derive(Debug)]
pub enum WalkEntry {
    File(String),
    NotFile,
    Failed(String),
}

/// How the directory walk filters: whether hidden entries are skipped and
/// whether `.gitignore` rules are followed.
#[derive(Clone, Copy, Debug, PartialEq, Eq, Structural)]
pub struct WalkSettings {
    pub skip_hidden: bool,
    pub respect_gitignore: bool,
}

/// What reading one line of a file gave: the line, or an error's text.
#[derive(Debug)]
pub enum LineRead {
    Line(String),
    Failed(String),
}

/// The paths of the files among `entries`, in order.
pub open spec fn file_paths(entries: Seq<WalkEntry>) -> Seq<Seq<char>>
    decreases entries.len(),
{
    if entries.len() == 0 {
        Seq::empty()
    } else {
        let rest = file_paths(entries.drop_last());
        match entries.last() {
            WalkEntry::File(p) => rest.push(p@),
            _ => rest,
        }
    }
}

/// `k` is the first index of `entries` that holds an error.
pub open spec fn first_walk_failure(entries: Seq<WalkEntry>, k: int) -> bool {
    &&& 0 <= k < entries.len()
    &&& entries[k] is Failed
    &&& forall|j: int| 0 <= j < k ==> !(#[trigger] entries[j] is Failed)
}

/// `k` is the first index of `lines` that holds an error.
pub open spec fn first_read_failure(lines: Seq<LineRead>, k: int) -> bool {
    &&& 0 <= k < lines.len()
    &&& lines[k] is Failed
    &&& forall|j: int| 0 <= j < k ==> !(#[trigger] lines[j] is Failed)
}

/// The first index of the lines numbered from `start` to `end`, counting
/// from one, among `len` lines.
pub open spec fn window_start(start: usize) -> int {
    if start == 0 {
        0
    } else {
        start - 1
    }
}

/// One past the last index of the lines numbered up to `end` among `len`
/// lines.
pub open spec fn window_end(len: int, end: usize) -> int {
    if end < len {
        end as int
    } else {
        len
    }
}

/// The lines numbered from `start` to `end`, counting from one.
pub open spec fn line_window(lines: Seq<LineRead>, start: usize, end: usize) -> Seq<LineRead> {
    let lo: int = window_start(start);
    let hi: int = window_end(lines.len() as int, end);
    if lo < hi {
        lines.subrange(lo, hi)
    } else {
        Seq::empty()
    }
}

/// The texts of lines that were read without error.
pub open spec fn read_texts(lines: Seq<LineRead>) -> Seq<Seq<char>> {
    lines.map_values(|l: LineRead| match l {
        LineRead::Line(t) => t@,
        LineRead::Failed(_) => Seq::empty(),
    })
}

/// A line as the search reports it: its number, a colon and a space, and
/// the line.
pub open spec fn numbered_line(number: nat, line: Seq<char>) -> Seq<char> {
    decimal(number) + seq![':', ' '] + line
}

/// The numbered lines, counting from one, that are marked.
pub open spec fn numbered_marked(lines: Seq<Seq<char>>, marks: Seq<bool>) -> Seq<Seq<char>>
    decreases lines.len(),
{
    if lines.len() == 0 {
        Seq::empty()
    } else {
        let rest = numbered_marked(lines.drop_last(), marks);
        if marks[lines.len() - 1] {
            rest.push(numbered_line(lines.len() as nat, lines.last()))
        } else {
            rest
        }
    }
}

/// Whether `pattern` finds a match in each line.
pub open spec fn match_marks(pattern: Seq<char>, lines: Seq<Seq<char>>) -> Seq<bool> {
    lines.map_values(|l: Seq<char>| regex_finds(pattern, l))
}

/// The numbered lines, counting from one, in which `pattern` finds a match.
pub open spec fn matching_lines(pattern: Seq<char>, lines: Seq<Seq<char>>) -> Seq<Seq<char>> {
    numbered_marked(lines, match_marks(pattern, lines))
}



/// Arguments of the `list_files` tool.
pub struct ListFilesArgs {
    pub path: String,
    pub include_hidden: bool,
    pub include_gitignore: bool,
}

/// Arguments of the `search_file` tool.
pub struct SearchFileArgs {
    pub path: String,
    pub regex_pattern: String,
}

/// Arguments of the `get_lines` tool.
pub struct GetLinesArgs {
    pub path: String,
    pub start: usize,
    pub end: usize,
}

/// Lists the files of a directory tree.
pub struct ListFiles;

/// Searches a file for lines that match a regular expression.
pub struct SearchFile;

/// Reads a range of lines of a file.
pub struct GetLines;

impl ListFiles {
    /// How the walk filters: hidden entries are skipped unless they are
    /// asked for, and `.gitignore` is followed when asked.
    pub fn walk_settings(&self, args: &ListFilesArgs) -> (res: WalkSettings)
        ensures
            res.skip_hidden == !args.include_hidden,
            res.respect_gitignore == args.include_gitignore,
    {
        WalkSettings { skip_hidden: !args.include_hidden, respect_gitignore: args.include_gitignore }
    }

    /// The listing of a walk: the first error if there is one, else the
    /// paths of the files, one per line.
    pub fn listing(&self, entries: &Vec<WalkEntry>) -> (res: Result<String, ToolError>)
        ensures
            match res {
                Ok(s) => {
                    &&& forall|j: int| 0 <= j < entries@.len() ==> !(#[trigger] entries@[j] is Failed)
                    &&& s@ == join_lines(file_paths(entries@))
                },
                Err(e) => exists|k: int|
                    first_walk_failure(entries@, k) && (e matches ToolError::Walk(m) && m@
                        == entries@[k]->Failed_0@),
            },
    {
        let mut paths: Vec<String> = Vec::new();
        let mut i: usize = 0;
        while i < entries.len()
            invariant
                0 <= i <= entries@.len(),
                forall|j: int| 0 <= j < i ==> !(#[trigger] entries@[j] is Failed),
                string_views(paths@) == file_paths(entries@.take(i as int)),
            decreases entries@.len() - i,
        {
            proof {
                assert(entries@.take(i + 1).drop_last() =~= entries@.take(i as int));
            }
            match &entries[i] {
                WalkEntry::File(p) => {
                    paths.push(p.clone());
                    proof {
                        assert(string_views(paths@) =~= file_paths(entries@.take(i as int)).push(
                            p@,
                        ));
                    }
                },
                WalkEntry::NotFile => {},
                WalkEntry::Failed(m) => {
                    proof {
                        assert(first_walk_failure(entries@, i as int));
                    }
                    return Err(ToolError::Walk(m.clone()));
                },
            }
            i = i + 1;
        }
        proof {
            assert(entries@.take(entries@.len() as int) =~= entries@);
        }
        Ok(join_with_newlines(&paths))
    }
}

impl SearchFile {
    /// Compiles the pattern of the arguments; a rejected pattern gives the
    /// error's text.
    pub fn compile(&self, args: &SearchFileArgs) -> (res: Result<LinePattern, ToolError>)
        ensures
            res is Ok <==> regex_accepts(args.regex_pattern@),
            res matches Ok(p) ==> p.source() == args.regex_pattern@,
            res matches Err(e) ==> (e matches ToolError::InvalidPattern(m) && m@
                == regex_error_message(args.regex_pattern@)),
    {
        match build_pattern(args.regex_pattern.as_str()) {
            Ok(p) => Ok(p),
            Err(m) => Err(ToolError::InvalidPattern(m)),
        }
    }

    /// The marked lines, each preceded by its number counting from one,
    /// joined by newlines.
    pub fn number_matches(&self, lines: &Vec<String>, marks: &Vec<bool>) -> (res: String)
        requires
            marks@.len() == lines@.len(),
        ensures
            res@ == join_lines(numbered_marked(string_views(lines@), marks@)),
    {
        let ghost views = string_views(lines@);
        let mut found: Vec<String> = Vec::new();
        let mut i: usize = 0;
        while i < lines.len()
            invariant
                0 <= i <= lines@.len(),
                marks@.len() == lines@.len(),
                views == string_views(lines@),
                string_views(found@) == numbered_marked(views.take(i as int), marks@),
            decreases lines@.len() - i,
        {
            proof {
                assert(views.take(i + 1).drop_last() =~= views.take(i as int));
                assert(views.take(i + 1).last() == lines@[i as int]@);
            }
            let line = &lines[i];
            if marks[i] {
                let mut entry = String::new();
                push_decimal(&mut entry, i + 1);
                entry.append(": ");
                entry.append(line.as_str());
                proof {
                    reveal_strlit(": ");
                    assert(entry@ =~= numbered_line((i + 1) as nat, line@));
                }
                found.push(entry);
                proof {
                    assert(string_views(found@) =~= numbered_marked(views.take(i as int), marks@).push(
                        numbered_line((i + 1) as nat, line@),
                    ));
                }
            }
            i = i + 1;
        }
        proof {
            assert(views.take(lines@.len() as int) =~= views);
        }
        join_with_newlines(&found)
    }

    /// The lines in which the pattern finds a match, each preceded by its
    /// number counting from one, joined by newlines.
    pub fn search(&self, pattern: &LinePattern, lines: &Vec<String>) -> (res: String)
        ensures
            res@ == join_lines(matching_lines(pattern.source(), string_views(lines@))),
    {
        let ghost views = string_views(lines@);
        let mut marks: Vec<bool> = Vec::new();
        let mut i: usize = 0;
        while i < lines.len()
            invariant
                0 <= i <= lines@.len(),
                views == string_views(lines@),
                marks@ == match_marks(pattern.source(), views).take(i as int),
            decreases lines@.len() - i,
        {
            let m = pattern.is_match(lines[i].as_str());
            marks.push(m);
            proof {
                assert(marks@ =~= match_marks(pattern.source(), views).take(i + 1));
            }
            i = i + 1;
        }
        proof {
            assert(marks@ =~= match_marks(pattern.source(), views));
        }
        self.number_matches(lines, &marks)
    }
}

impl GetLines {
    /// The lines numbered from `args.start` to `args.end`, counting from one,
    /// joined by newlines; or the error of the first of them that could not
    /// be read.
    pub fn select(&self, args: &GetLinesArgs, lines: &Vec<LineRead>) -> (res: Result<String, ToolError>)
        ensures
            ({
                let window = line_window(lines@, args.start, args.end);
                match res {
                    Ok(s) => {
                        &&& forall|j: int| 0 <= j < window.len() ==> !(#[trigger] window[j] is Failed)
                        &&& s@ == join_lines(read_texts(window))
                    },
                    Err(e) => exists|k: int|
                        first_read_failure(window, k) && (e matches ToolError::Io(m) && m@
                            == window[k]->Failed_0@),
                }
            }),
    {
        let ghost window = line_window(lines@, args.start, args.end);
        let ghost lo = window_start(args.start);
        let mut picked: Vec<String> = Vec::new();
        let mut idx: usize = 0;
        while idx < lines.len() && idx < args.end
            invariant
                0 <= idx <= lines@.len(),
                window == line_window(lines@, args.start, args.end),
                lo == window_start(args.start),
                idx <= args.end,
                ({
                    let seen: int = if idx <= lo { 0 } else { idx - lo };
                    &&& forall|j: int| 0 <= j < seen ==> !(#[trigger] window[j] is Failed)
                    &&& string_views(picked@) == read_texts(window.take(seen))
                }),
            decreases lines@.len() - idx,
        {
            let line_num: usize = idx + 1;
            if line_num >= args.start {
                proof {
                    let seen: int = if idx <= lo { 0 } else { idx - lo };
                    assert(seen == idx - lo);
                    assert(window[seen] == lines@[idx as int]);
                    assert(window.take(seen + 1) =~= window.take(seen).push(lines@[idx as int]));
                }
                match &lines[idx] {
                    LineRead::Line(t) => {
                        let ghost prev = string_views(picked@);
                        picked.push(t.clone());
                        proof {
                            let seen: int = idx - lo;
                            assert(string_views(picked@) =~= prev.push(t@));
                            assert(read_texts(window.take(seen + 1)) =~= read_texts(window.take(seen)).push(t@));
                            assert(string_views(picked@) =~= read_texts(window.take(seen + 1)));
                        }
                    },
                    LineRead::Failed(m) => {
                        proof {
                            assert(first_read_failure(window, idx - lo));
                        }
                        return Err(ToolError::Io(m.clone()));
                    },
                }
            }
            idx = idx + 1;
        }
        proof {
            let seen: int = if idx <= lo { 0 } else { idx - lo };
            assert(seen == window.len());
            assert(window.take(seen) =~= window);
        }
        Ok(join_with_newlines(&picked))
    }
}

} // verus!
