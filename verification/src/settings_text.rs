//! The text of a saved settings file: the comments that explain its entries.

use vstd::prelude::*;
use vstd::string::StringExecFns;
use crate::config::Settings;
use crate::text::{
    chars_of, contains_seq, find_seq, is_prefix, occurs_at_exec, starts_with, string_of,
};

verus! {

/// What reading a text up to some character has found: the lines that a line
/// feed has closed, and the characters of the line that is still open.
pub ghost struct Scan {
    pub closed: Seq<Seq<char>>,
    pub open: Seq<char>,
}

/// A closed line without the carriage return that may end it.
pub open spec fn without_return(line: Seq<char>) -> Seq<char> {
    if line.len() > 0 && line.last() == '\r' {
        line.drop_last()
    } else {
        line
    }
}

/// The state after the first `n` characters of `text`.
pub open spec fn scan(text: Seq<char>, n: nat) -> Scan
    decreases n,
{
    if n == 0 {
        Scan { closed: Seq::empty(), open: Seq::empty() }
    } else {
        let before = scan(text, (n - 1) as nat);
        if text[n - 1] == '\n' {
            Scan { closed: before.closed.push(without_return(before.open)), open: Seq::empty() }
        } else {
            Scan { closed: before.closed, open: before.open.push(text[n - 1]) }
        }
    }
}

/// The lines of a text. A line ends at a line feed, which is not part of it,
/// nor is a carriage return directly before the line feed. What follows the
/// last line feed is a line too, unless it is empty.
pub open spec fn lines_of(text: Seq<char>) -> Seq<Seq<char>> {
    let all = scan(text, text.len());
    if all.open.len() > 0 {
        all.closed.push(all.open)
    } else {
        all.closed
    }
}

/// The characters of each line of a list.
pub open spec fn lines_view(lines: Seq<Vec<char>>) -> Seq<Seq<char>> {
    Seq::new(lines.len(), |i: int| lines[i]@)
}

/// Splits a text into its lines.
pub fn split_lines(text: &str) -> (r: Vec<Vec<char>>)
    ensures
        lines_view(r@) == lines_of(text@),
{
    let chars = chars_of(text);
    let mut closed: Vec<Vec<char>> = Vec::new();
    let mut open: Vec<char> = Vec::new();
    let mut i: usize = 0;
    proof {
        assert(lines_view(closed@) =~= scan(text@, 0).closed);
    }
    while i < chars.len()
        invariant
            i <= chars.len(),
            chars@ == text@,
            lines_view(closed@) == scan(text@, i as nat).closed,
            open@ == scan(text@, i as nat).open,
        decreases chars.len() - i,
    {
        let c = chars[i];
        let ghost lines_before = closed@;
        let ghost open_before = open@;
        if c == '\n' {
            let n = open.len();
            if n > 0 && open[n - 1] == '\r' {
                open.pop();
                proof {
                    assert(open@ =~= open_before.drop_last());
                }
            }
            closed.push(open);
            open = Vec::new();
            proof {
                assert(lines_view(closed@) =~= lines_view(lines_before).push(
                    without_return(open_before),
                ));
            }
        } else {
            open.push(c);
        }
        i = i + 1;
    }
    if open.len() > 0 {
        let ghost lines_before = closed@;
        let ghost last = open@;
        closed.push(open);
        proof {
            assert(lines_view(closed@) =~= lines_view(lines_before).push(last));
        }
    }
    closed
}

/// What is written for one line of the settings.
pub ghost struct Note {
    /// What is written before the line; for a section, with its header.
    pub text: Seq<char>,
    /// Whether the line is the header of a section with a note of its own:
    /// the text then holds the header, and an empty line after it is dropped.
    pub section: bool,
    /// Whether the per-language sections have begun.
    pub languages: bool,
}

/// The note before an entry.
pub open spec fn entry(text: Seq<char>, languages: bool) -> Note {
    Note { text, section: false, languages }
}

/// The note that stands for a section header.
pub open spec fn header(text: Seq<char>, languages: bool) -> Note {
    Note { text, section: true, languages }
}

/// The first lines of every settings file.
pub open spec fn heading() -> Seq<char> {
    "# Codanna Configuration File\n# https://github.com/bartolli/codanna\n\n"@
}

/// The note of a line. `languages` says whether a per-language section has
/// been met before: from there on `debug` is no longer the global switch.
pub open spec fn note(line: Seq<char>, languages: bool) -> Note {
    if line == "version = 1"@ {
        entry("# Version of the configuration schema\n"@, languages)
    } else if is_prefix("index_path = "@, line) {
        entry("\n# Path to the index directory (relative to workspace root)\n"@, languages)
    } else if is_prefix("workspace_root = "@, line) {
        entry("\n# Workspace root directory (automatically detected)\n"@, languages)
    } else if is_prefix("debug = "@, line) {
        if !languages {
            entry("\n# Global debug mode\n"@, languages)
        } else if contains_seq(line, "false"@) {
            entry("\n# Enable debug logging for MCP server\n"@, languages)
        } else {
            entry(""@, languages)
        }
    } else if line == "[indexing]"@ {
        header("\n[indexing]\n"@, languages)
    } else if is_prefix("parallel_threads = "@, line) {
        entry(
            "# Number of parallel threads for indexing (defaults to CPU count)\n"@,
            languages,
        )
    } else if is_prefix("tantivy_heap_mb = "@, line) {
        entry(
            "\n# Tantivy heap size in megabytes\n# Reduce to 15-25MB if you have permission issues (antivirus, SELinux, containers)\n# Increase to 100-200MB if you have plenty of RAM and no restrictions\n"@,
            languages,
        )
    } else if is_prefix("max_retry_attempts = "@, line) {
        entry(
            "\n# Retry attempts for transient file system errors\n# Exponential backoff: 100ms, 200ms, 400ms delays\n"@,
            languages,
        )
    } else if is_prefix("ignore_patterns = "@, line) {
        entry("\n# Additional patterns to ignore during indexing\n"@, languages)
    } else if is_prefix("indexed_paths = "@, line) {
        entry(
            "\n# List of directories to index\n# Add folders using: codanna add-dir <path>\n# Remove folders using: codanna remove-dir <path>\n# List all folders using: codanna list-dirs\n"@,
            languages,
        )
    } else if line == "[mcp]"@ {
        header("\n[mcp]\n"@, languages)
    } else if is_prefix("max_context_size = "@, line) {
        entry("# Maximum context size in bytes for MCP server\n"@, languages)
    } else if line == "[semantic_search]"@ {
        header(
            "\n[semantic_search]\n# Semantic search for natural language code queries\n"@,
            languages,
        )
    } else if is_prefix("model = "@, line) {
        entry(
            "\n# Model to use for embeddings\n# Note: Changing models requires re-indexing (codanna index --force)\n# - AllMiniLML6V2: English-only, 384 dimensions (default)\n# - MultilingualE5Small: 94 languages including, 384 dimensions (recommended for multilingual)\n# - MultilingualE5Base: 94 languages, 768 dimensions (better quality)\n# - MultilingualE5Large: 94 languages, 1024 dimensions (best quality)\n# - BGESmallZHV15: Chinese-specialized, 512 dimensions\n# - See documentation for full list of available models\n"@,
            languages,
        )
    } else if is_prefix("threshold = "@, line) {
        entry("\n# Similarity threshold for search results (0.0 to 1.0)\n"@, languages)
    } else if line == "[file_watch]"@ {
        header(
            "\n[file_watch]\n# Enable automatic file watching for indexed files\n# When enabled, the MCP server will automatically re-index files when they change\n# Default: true (enabled for better user experience)\n"@,
            languages,
        )
    } else if is_prefix("debounce_ms = "@, line) {
        entry(
            "\n# Debounce interval in milliseconds\n# How long to wait after a file change before re-indexing\n"@,
            languages,
        )
    } else if line == "[server]"@ {
        header(
            "\n[server]\n# Server mode: \"stdio\" (default) or \"http\"\n# stdio: Lightweight, spawns per request (best for production)\n# http: Persistent server, real-time file watching (best for development)\n"@,
            languages,
        )
    } else if is_prefix("bind = "@, line) {
        entry(
            "\n# HTTP server bind address (only used when mode = \"http\" or --http flag)\n"@,
            languages,
        )
    } else if is_prefix("watch_interval = "@, line) {
        entry(
            "\n# Watch interval for stdio mode in seconds (how often to check for file changes)\n"@,
            languages,
        )
    } else if is_prefix("[languages."@, line) {
        if languages {
            entry("\n"@, true)
        } else {
            entry(
                "\n# Language-specific settings\n# Currently supported: Rust, Python, PHP, TypeScript, Go, C, C++, CSharp, Gdscript\n\n"@,
                true,
            )
        }
    } else {
        entry(""@, languages)
    }
}

/// The note of a line, as the writer holds it.
pub struct LineNote {
    pub text: &'static str,
    pub section: bool,
    pub languages: bool,
}

impl View for LineNote {
    type V = Note;

    open spec fn view(&self) -> Note {
        Note { text: self.text@, section: self.section, languages: self.languages }
    }
}

fn entry_note(text: &'static str, languages: bool) -> (r: LineNote)
    ensures
        r@ == entry(text@, languages),
{
    LineNote { text, section: false, languages }
}

fn header_note(text: &'static str, languages: bool) -> (r: LineNote)
    ensures
        r@ == header(text@, languages),
{
    LineNote { text, section: true, languages }
}

fn is_line(line: &Vec<char>, text: &str) -> (r: bool)
    ensures
        r == (line@ == text@),
{
    let t = chars_of(text);
    if t.len() != line.len() {
        return false;
    }
    let r = occurs_at_exec(line, &t, 0);
    proof {
        assert(line@.subrange(0, line@.len() as int) =~= line@);
    }
    r
}

fn begins(line: &Vec<char>, prefix: &str) -> (r: bool)
    ensures
        r == is_prefix(prefix@, line@),
{
    let p = chars_of(prefix);
    starts_with(line, &p)
}

fn holds(line: &Vec<char>, part: &str) -> (r: bool)
    ensures
        r == contains_seq(line@, part@),
{
    let p = chars_of(part);
    find_seq(line, &p).is_some()
}

/// The note of one line.
pub fn line_note(line: &Vec<char>, languages: bool) -> (r: LineNote)
    ensures
        r@ == note(line@, languages),
{
    if is_line(line, "version = 1") {
        entry_note("# Version of the configuration schema\n", languages)
    } else if begins(line, "index_path = ") {
        entry_note("\n# Path to the index directory (relative to workspace root)\n", languages)
    } else if begins(line, "workspace_root = ") {
        entry_note("\n# Workspace root directory (automatically detected)\n", languages)
    } else if begins(line, "debug = ") {
        if !languages {
            entry_note("\n# Global debug mode\n", languages)
        } else if holds(line, "false") {
            entry_note("\n# Enable debug logging for MCP server\n", languages)
        } else {
            entry_note("", languages)
        }
    } else if is_line(line, "[indexing]") {
        header_note("\n[indexing]\n", languages)
    } else if begins(line, "parallel_threads = ") {
        entry_note(
            "# Number of parallel threads for indexing (defaults to CPU count)\n",
            languages,
        )
    } else if begins(line, "tantivy_heap_mb = ") {
        entry_note(
            "\n# Tantivy heap size in megabytes\n# Reduce to 15-25MB if you have permission issues (antivirus, SELinux, containers)\n# Increase to 100-200MB if you have plenty of RAM and no restrictions\n",
            languages,
        )
    } else if begins(line, "max_retry_attempts = ") {
        entry_note(
            "\n# Retry attempts for transient file system errors\n# Exponential backoff: 100ms, 200ms, 400ms delays\n",
            languages,
        )
    } else if begins(line, "ignore_patterns = ") {
        entry_note("\n# Additional patterns to ignore during indexing\n", languages)
    } else if begins(line, "indexed_paths = ") {
        entry_note(
            "\n# List of directories to index\n# Add folders using: codanna add-dir <path>\n# Remove folders using: codanna remove-dir <path>\n# List all folders using: codanna list-dirs\n",
            languages,
        )
    } else if is_line(line, "[mcp]") {
        header_note("\n[mcp]\n", languages)
    } else if begins(line, "max_context_size = ") {
        entry_note("# Maximum context size in bytes for MCP server\n", languages)
    } else if is_line(line, "[semantic_search]") {
        header_note(
            "\n[semantic_search]\n# Semantic search for natural language code queries\n",
            languages,
        )
    } else if begins(line, "model = ") {
        entry_note(
            "\n# Model to use for embeddings\n# Note: Changing models requires re-indexing (codanna index --force)\n# - AllMiniLML6V2: English-only, 384 dimensions (default)\n# - MultilingualE5Small: 94 languages including, 384 dimensions (recommended for multilingual)\n# - MultilingualE5Base: 94 languages, 768 dimensions (better quality)\n# - MultilingualE5Large: 94 languages, 1024 dimensions (best quality)\n# - BGESmallZHV15: Chinese-specialized, 512 dimensions\n# - See documentation for full list of available models\n",
            languages,
        )
    } else if begins(line, "threshold = ") {
        entry_note("\n# Similarity threshold for search results (0.0 to 1.0)\n", languages)
    } else if is_line(line, "[file_watch]") {
        header_note(
            "\n[file_watch]\n# Enable automatic file watching for indexed files\n# When enabled, the MCP server will automatically re-index files when they change\n# Default: true (enabled for better user experience)\n",
            languages,
        )
    } else if begins(line, "debounce_ms = ") {
        entry_note(
            "\n# Debounce interval in milliseconds\n# How long to wait after a file change before re-indexing\n",
            languages,
        )
    } else if is_line(line, "[server]") {
        header_note(
            "\n[server]\n# Server mode: \"stdio\" (default) or \"http\"\n# stdio: Lightweight, spawns per request (best for production)\n# http: Persistent server, real-time file watching (best for development)\n",
            languages,
        )
    } else if begins(line, "bind = ") {
        entry_note(
            "\n# HTTP server bind address (only used when mode = \"http\" or --http flag)\n",
            languages,
        )
    } else if begins(line, "watch_interval = ") {
        entry_note(
            "\n# Watch interval for stdio mode in seconds (how often to check for file changes)\n",
            languages,
        )
    } else if begins(line, "[languages.") {
        if languages {
            entry_note("\n", true)
        } else {
            entry_note(
                "\n# Language-specific settings\n# Currently supported: Rust, Python, PHP, TypeScript, Go, C, C++, CSharp, Gdscript\n\n",
                true,
            )
        }
    } else {
        entry_note("", languages)
    }
}

/// The commented text after some of the lines.
pub ghost struct Annotated {
    pub text: Seq<char>,
    /// Whether a per-language section has been met.
    pub languages: bool,
    /// Whether the line before was the header of a section.
    pub after_header: bool,
}

/// The commented text after the first `n` of the lines: each line follows
/// its note and ends with a line feed; a section header is written by its
/// note alone; an empty line directly after such a header is left out.
pub open spec fn annotated(lines: Seq<Seq<char>>, n: nat) -> Annotated
    decreases n,
{
    if n == 0 {
        Annotated { text: heading(), languages: false, after_header: false }
    } else {
        let before = annotated(lines, (n - 1) as nat);
        let line = lines[n - 1];
        if line.len() == 0 && before.after_header {
            Annotated { text: before.text, languages: before.languages, after_header: false }
        } else {
            let found = note(line, before.languages);
            if found.section {
                Annotated {
                    text: before.text + found.text,
                    languages: found.languages,
                    after_header: true,
                }
            } else {
                Annotated {
                    text: before.text + found.text + line + "\n"@,
                    languages: found.languages,
                    after_header: false,
                }
            }
        }
    }
}

/// The settings text `toml` with its comments.
pub open spec fn with_comments(toml: Seq<char>) -> Seq<char> {
    annotated(lines_of(toml), lines_of(toml).len()).text
}

impl Settings {
    /// Adds the explaining comments to the text of a settings file.
    pub fn add_config_comments(toml: &str) -> (r: String)
        ensures
            r@ == with_comments(toml@),
    {
        let lines = split_lines(toml);
        let mut out = "# Codanna Configuration File\n# https://github.com/bartolli/codanna\n\n".to_owned();
        let mut languages = false;
        let mut after_header = false;
        let mut i: usize = 0;
        while i < lines.len()
            invariant
                i <= lines.len(),
                out@ == annotated(lines_view(lines@), i as nat).text,
                languages == annotated(lines_view(lines@), i as nat).languages,
                after_header == annotated(lines_view(lines@), i as nat).after_header,
            decreases lines.len() - i,
        {
            let line = &lines[i];
            if line.len() == 0 && after_header {
                after_header = false;
            } else {
                let found = line_note(line, languages);
                out.append(found.text);
                if !found.section {
                    let own = string_of(line);
                    out.append(own.as_str());
                    out.append("\n");
                }
                languages = found.languages;
                after_header = found.section;
            }
            i = i + 1;
        }
        out
    }
}

} // verus!
