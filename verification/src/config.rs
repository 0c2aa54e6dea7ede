//! Settings of the index and of the services around it, with their default
//! values.

use vstd::prelude::*;
use crate::init::local_dir_name;
use crate::text::{concat, opt_view, strings_view};

verus! {

/// Settings of indexing.
#[derive(Debug, Clone)]
pub struct IndexingConfig {
    /// The number of threads that index in parallel.
    pub parallel_threads: usize,
    /// The writer's heap in megabytes.
    pub tantivy_heap_mb: usize,
    /// How often a write is retried after a transient failure.
    pub max_retry_attempts: u32,
    /// The project root, where it is not the workspace root.
    pub project_root: Option<String>,
    /// Patterns of paths that are not indexed.
    pub ignore_patterns: Vec<String>,
    /// The directories that are indexed.
    pub indexed_paths: Vec<String>,
}

/// Settings of one language.
#[derive(Debug, Clone)]
pub struct LanguageConfig {
    pub enabled: bool,
    pub extensions: Vec<String>,
    /// Project configuration files to watch.
    pub config_files: Vec<String>,
}

/// Settings of the protocol server.
#[derive(Debug, Clone)]
pub struct McpConfig {
    /// The largest context in bytes.
    pub max_context_size: usize,
    pub debug: bool,
}

/// Settings of semantic search. The threshold is kept as the bit pattern
/// of a single-precision number.
#[derive(Debug, Clone)]
pub struct SemanticSearchConfig {
    pub enabled: bool,
    pub model: String,
    pub threshold_bits: u32,
}

/// Settings of the file watcher.
#[derive(Debug, Clone)]
pub struct FileWatchConfig {
    pub enabled: bool,
    /// How long to wait after a change before indexing again, in ms.
    pub debounce_ms: u64,
}

/// Settings of the server.
#[derive(Debug, Clone)]
pub struct ServerConfig {
    /// `stdio` or `http`.
    pub mode: String,
    /// The address that the HTTP server binds.
    pub bind: String,
    /// How often changes are looked for in stdio mode, in seconds.
    pub watch_interval: u64,
}

/// A guidance template for the results whose count lies in a range.
#[derive(Debug, Clone)]
pub struct GuidanceRange {
    /// The smallest count, included.
    pub min: usize,
    /// The largest count, included; unbounded where there is none.
    pub max: Option<usize>,
    pub template: String,
}

/// The guidance templates of one tool.
#[derive(Debug, Clone)]
pub struct GuidanceTemplate {
    pub no_results: Option<String>,
    pub single_result: Option<String>,
    pub multiple_results: Option<String>,
    /// Templates for particular ranges of the count.
    pub custom: Vec<GuidanceRange>,
}

/// Settings of the guidance given with results.
#[derive(Debug, Clone)]
pub struct GuidanceConfig {
    pub enabled: bool,
    /// The templates of each tool, by the tool's name.
    pub templates: Vec<(String, GuidanceTemplate)>,
    /// Variables that templates may use, by name.
    pub variables: Vec<(String, String)>,
}

/// All settings.
#[derive(Debug, Clone)]
pub struct Settings {
    pub version: u32,
    pub index_path: String,
    pub workspace_root: Option<String>,
    pub debug: bool,
    pub indexing: IndexingConfig,
    /// The indexed paths, kept beside the indexing settings for lookups.
    pub indexed_paths_cache: Vec<String>,
    /// The settings of each language, by the language's identifier.
    pub languages: Vec<(String, LanguageConfig)>,
    pub mcp: McpConfig,
    pub semantic_search: SemanticSearchConfig,
    pub file_watch: FileWatchConfig,
    pub server: ServerConfig,
    pub guidance: GuidanceConfig,
}

/// The bit pattern of the default similarity threshold, 0.6.
pub const DEFAULT_THRESHOLD_BITS: u32 = 0x3F19_999A;

pub fn default_version() -> (r: u32)
    ensures
        r == 1,
{
    1
}

/// The index directory below the local directory.
pub fn default_index_path() -> (r: String)
    ensures
        r@ == ".codanna"@ + "/index"@,
{
    concat(local_dir_name(), "/index")
}

pub fn default_tantivy_heap_mb() -> (r: usize)
    ensures
        r == 50,
{
    50
}

pub fn default_max_retry_attempts() -> (r: u32)
    ensures
        r == 3,
{
    3
}

pub fn default_true() -> (r: bool)
    ensures
        r,
{
    true
}

pub fn default_false() -> (r: bool)
    ensures
        !r,
{
    false
}

pub fn default_max_context_size() -> (r: usize)
    ensures
        r == 100000,
{
    100_000
}

pub fn default_embedding_model() -> (r: String)
    ensures
        r@ == "AllMiniLML6V2"@,
{
    "AllMiniLML6V2".to_owned()
}

pub fn default_debounce_ms() -> (r: u64)
    ensures
        r == 500,
{
    500
}

pub fn default_server_mode() -> (r: String)
    ensures
        r@ == "stdio"@,
{
    "stdio".to_owned()
}

pub fn default_bind_address() -> (r: String)
    ensures
        r@ == "127.0.0.1:8080"@,
{
    "127.0.0.1:8080".to_owned()
}

pub fn default_watch_interval() -> (r: u64)
    ensures
        r == 5,
{
    5
}

/// The patterns that are ignored unless the settings say otherwise.
pub open spec fn default_ignore_patterns() -> Seq<Seq<char>> {
    seq!["target/**"@, "node_modules/**"@, ".git/**"@, "*.generated.*"@]
}

/// The number of processors of this machine, as `num_cpus::get` reports
/// it: at least one, as its documentation promises. Which number it is
/// depends on the machine.
#[verifier::external_body]
fn default_parallel_threads() -> (r: usize)
    ensures
        r >= 1,
{
    num_cpus::get()
}

impl IndexingConfig {
    /// Whether these are the default indexing settings for a machine with
    /// the given number of processors.
    pub open spec fn default_for(&self, parallel_threads: usize) -> bool {
        &&& self.parallel_threads == parallel_threads
        &&& self.tantivy_heap_mb == 50
        &&& self.max_retry_attempts == 3
        &&& self.project_root is None
        &&& strings_view(self.ignore_patterns@) == default_ignore_patterns()
        &&& self.indexed_paths@.len() == 0
    }

    /// The default indexing settings for a machine with the given number of
    /// processors.
    pub fn with_parallel_threads(parallel_threads: usize) -> (r: Self)
        ensures
            r.default_for(parallel_threads),
    {
        let mut ignore_patterns: Vec<String> = Vec::new();
        ignore_patterns.push("target/**".to_owned());
        ignore_patterns.push("node_modules/**".to_owned());
        ignore_patterns.push(".git/**".to_owned());
        ignore_patterns.push("*.generated.*".to_owned());
        proof {
            assert(strings_view(ignore_patterns@) =~= default_ignore_patterns());
        }
        IndexingConfig {
            parallel_threads,
            tantivy_heap_mb: default_tantivy_heap_mb(),
            max_retry_attempts: default_max_retry_attempts(),
            project_root: None,
            ignore_patterns,
            indexed_paths: Vec::new(),
        }
    }
}

impl Default for IndexingConfig {
    /// The default indexing settings for this machine: one thread for each
    /// of its processors.
    fn default() -> (r: Self)
        ensures
            r.parallel_threads >= 1,
            r.default_for(r.parallel_threads),
    {
        IndexingConfig::with_parallel_threads(default_parallel_threads())
    }
}

impl Default for McpConfig {
    fn default() -> (r: Self)
        ensures
            r.max_context_size == 100000,
            !r.debug,
    {
        McpConfig { max_context_size: default_max_context_size(), debug: false }
    }
}

impl Default for SemanticSearchConfig {
    fn default() -> (r: Self)
        ensures
            r.enabled,
            r.model@ == "AllMiniLML6V2"@,
            r.threshold_bits == DEFAULT_THRESHOLD_BITS,
    {
        SemanticSearchConfig {
            enabled: true,
            model: default_embedding_model(),
            threshold_bits: DEFAULT_THRESHOLD_BITS,
        }
    }
}

impl Default for FileWatchConfig {
    fn default() -> (r: Self)
        ensures
            r.enabled,
            r.debounce_ms == 500,
    {
        FileWatchConfig { enabled: true, debounce_ms: default_debounce_ms() }
    }
}

impl Default for ServerConfig {
    fn default() -> (r: Self)
        ensures
            r.mode@ == "stdio"@,
            r.bind@ == "127.0.0.1:8080"@,
            r.watch_interval == 5,
    {
        ServerConfig {
            mode: default_server_mode(),
            bind: default_bind_address(),
            watch_interval: default_watch_interval(),
        }
    }
}

/// Whether debug output is wanted: the debug flag of the settings that were
/// loaded, and no where none could be loaded.
pub fn is_global_debug_enabled(loaded: Option<&Settings>) -> (r: bool)
    ensures
        r == (match loaded {
            Some(s) => s.debug,
            None => false,
        }),
{
    match loaded {
        Some(s) => s.debug,
        None => false,
    }
}

// ---------------------------------------------------------------------------
// Guidance
// ---------------------------------------------------------------------------

/// The mathematical content of a [`GuidanceRange`].
pub struct GuidanceRangeView {
    pub min: usize,
    pub max: Option<usize>,
    pub template: Seq<char>,
}

/// The mathematical content of a [`GuidanceTemplate`].
pub struct GuidanceTemplateView {
    pub no_results: Option<Seq<char>>,
    pub single_result: Option<Seq<char>>,
    pub multiple_results: Option<Seq<char>>,
    pub custom: Seq<GuidanceRangeView>,
}

impl View for GuidanceRange {
    type V = GuidanceRangeView;

    open spec fn view(&self) -> GuidanceRangeView {
        GuidanceRangeView { min: self.min, max: self.max, template: self.template@ }
    }
}

/// The content of each range of a list.
pub open spec fn range_views(v: Seq<GuidanceRange>) -> Seq<GuidanceRangeView> {
    Seq::new(v.len(), |i: int| v[i]@)
}

impl View for GuidanceTemplate {
    type V = GuidanceTemplateView;

    open spec fn view(&self) -> GuidanceTemplateView {
        GuidanceTemplateView {
            no_results: opt_view(self.no_results),
            single_result: opt_view(self.single_result),
            multiple_results: opt_view(self.multiple_results),
            custom: range_views(self.custom@),
        }
    }
}

/// The content of each named template of a list.
pub open spec fn template_views(v: Seq<(String, GuidanceTemplate)>) -> Seq<
    (Seq<char>, GuidanceTemplateView),
> {
    Seq::new(v.len(), |i: int| (v[i].0@, v[i].1@))
}

/// The content of each named string of a list.
pub open spec fn variable_views(v: Seq<(String, String)>) -> Seq<(Seq<char>, Seq<char>)> {
    Seq::new(v.len(), |i: int| (v[i].0@, v[i].1@))
}

/// The guidance templates that are used unless the settings say otherwise,
/// by the name of the tool.
pub open spec fn default_templates() -> Seq<(Seq<char>, GuidanceTemplateView)> {
    seq![
        (
            "semantic_search_docs"@,
            GuidanceTemplateView {
                no_results: Some("No results found. Try broader search terms or check if the codebase is indexed."@),
                single_result: Some("Found one match. Consider using 'find_symbol' or 'get_calls' to explore this symbol's relationships."@),
                multiple_results: Some("Found {result_count} matches. Consider using 'find_symbol' on the most relevant result for detailed analysis, or refine your search query."@),
                custom: seq![GuidanceRangeView { min: 10, max: None, template: "Found {result_count} matches. Consider refining your search with more specific terms."@ }],
            },
        ),
        (
            "find_symbol"@,
            GuidanceTemplateView {
                no_results: Some("Symbol not found. Use 'search_symbols' with fuzzy matching or 'semantic_search_docs' for broader search."@),
                single_result: Some("Symbol found with full context. Explore 'get_calls' to see what it calls, 'find_callers' to see usage, or 'analyze_impact' to understand change implications."@),
                multiple_results: Some("Found {result_count} symbols with that name. Review each to find the one you're looking for."@),
                custom: Seq::empty(),
            },
        ),
        (
            "get_calls"@,
            GuidanceTemplateView {
                no_results: Some("No function calls found. This might be a leaf function or data structure."@),
                single_result: Some("Found 1 function call. Use 'find_symbol' to explore this dependency."@),
                multiple_results: Some("Found {result_count} function calls. Consider using 'find_symbol' on key dependencies or 'analyze_impact' to trace the call chain further."@),
                custom: Seq::empty(),
            },
        ),
        (
            "find_callers"@,
            GuidanceTemplateView {
                no_results: Some("No callers found. This might be an entry point, unused code, or called dynamically."@),
                single_result: Some("Found 1 caller. Use 'find_symbol' to explore where this function is used."@),
                multiple_results: Some("Found {result_count} callers. Consider 'analyze_impact' for complete dependency graph or investigate specific callers with 'find_symbol'."@),
                custom: Seq::empty(),
            },
        ),
        (
            "analyze_impact"@,
            GuidanceTemplateView {
                no_results: Some("No impact detected. This symbol appears isolated. Consider using the codanna-navigator agent for comprehensive multi-hop analysis of complex relationships."@),
                single_result: Some("Minimal impact radius. This symbol has limited dependencies."@),
                multiple_results: Some("Impact analysis shows {result_count} affected symbols. Focus on critical paths or use 'find_symbol' on key dependencies."@),
                custom: seq![GuidanceRangeView { min: 2, max: Some(5usize), template: "Limited impact radius with {result_count} affected symbols. This change is relatively contained."@ }, GuidanceRangeView { min: 20, max: None, template: "Significant impact with {result_count} affected symbols. Consider breaking this change into smaller parts."@ }],
            },
        ),
        (
            "search_symbols"@,
            GuidanceTemplateView {
                no_results: Some("No symbols match your query. Try 'semantic_search_docs' for natural language search or adjust your pattern."@),
                single_result: Some("Found exactly one match. Use 'find_symbol' to get full details about this symbol."@),
                multiple_results: Some("Found {result_count} matching symbols. Use 'find_symbol' on specific results for full context or narrow your search with 'kind' parameter."@),
                custom: Seq::empty(),
            },
        ),
        (
            "semantic_search_with_context"@,
            GuidanceTemplateView {
                no_results: Some("No semantic matches found. Try different phrasing or ensure documentation exists for the concepts you're searching."@),
                single_result: Some("Found one match with full context. Review the relationships to understand how this fits into the codebase."@),
                multiple_results: Some("Rich context provided for {result_count} matches. Investigate specific relationships using targeted tools like 'get_calls' or 'find_callers'."@),
                custom: Seq::empty(),
            },
        ),
        (
            "get_index_info"@,
            GuidanceTemplateView {
                no_results: None,
                single_result: Some("Index statistics loaded. Use search tools to explore the codebase."@),
                multiple_results: None,
                custom: Seq::empty(),
            },
        ),
    ]
}

fn range(min: usize, max: Option<usize>, template: &str) -> (r: GuidanceRange)
    ensures
        r@ == (GuidanceRangeView { min, max, template: template@ }),
{
    GuidanceRange { min, max, template: template.to_owned() }
}

/// The guidance templates that are used unless the settings say otherwise.
pub fn default_guidance_templates() -> (r: Vec<(String, GuidanceTemplate)>)
    ensures
        template_views(r@) == default_templates(),
{
    let mut templates: Vec<(String, GuidanceTemplate)> = Vec::new();
    let mut custom: Vec<GuidanceRange> = Vec::new();
    custom.push(range(10, None, "Found {result_count} matches. Consider refining your search with more specific terms."));
    proof {
        assert(range_views(custom@) =~= default_templates()[0].1.custom);
    }
    templates.push(
        (
            "semantic_search_docs".to_owned(),
            GuidanceTemplate {
                no_results: Some("No results found. Try broader search terms or check if the codebase is indexed.".to_owned()),
                single_result: Some("Found one match. Consider using 'find_symbol' or 'get_calls' to explore this symbol's relationships.".to_owned()),
                multiple_results: Some("Found {result_count} matches. Consider using 'find_symbol' on the most relevant result for detailed analysis, or refine your search query.".to_owned()),
                custom,
            },
        ),
    );
    let mut custom: Vec<GuidanceRange> = Vec::new();
    proof {
        assert(range_views(custom@) =~= default_templates()[1].1.custom);
    }
    templates.push(
        (
            "find_symbol".to_owned(),
            GuidanceTemplate {
                no_results: Some("Symbol not found. Use 'search_symbols' with fuzzy matching or 'semantic_search_docs' for broader search.".to_owned()),
                single_result: Some("Symbol found with full context. Explore 'get_calls' to see what it calls, 'find_callers' to see usage, or 'analyze_impact' to understand change implications.".to_owned()),
                multiple_results: Some("Found {result_count} symbols with that name. Review each to find the one you're looking for.".to_owned()),
                custom,
            },
        ),
    );
    let mut custom: Vec<GuidanceRange> = Vec::new();
    proof {
        assert(range_views(custom@) =~= default_templates()[2].1.custom);
    }
    templates.push(
        (
            "get_calls".to_owned(),
            GuidanceTemplate {
                no_results: Some("No function calls found. This might be a leaf function or data structure.".to_owned()),
                single_result: Some("Found 1 function call. Use 'find_symbol' to explore this dependency.".to_owned()),
                multiple_results: Some("Found {result_count} function calls. Consider using 'find_symbol' on key dependencies or 'analyze_impact' to trace the call chain further.".to_owned()),
                custom,
            },
        ),
    );
    let mut custom: Vec<GuidanceRange> = Vec::new();
    proof {
        assert(range_views(custom@) =~= default_templates()[3].1.custom);
    }
    templates.push(
        (
            "find_callers".to_owned(),
            GuidanceTemplate {
                no_results: Some("No callers found. This might be an entry point, unused code, or called dynamically.".to_owned()),
                single_result: Some("Found 1 caller. Use 'find_symbol' to explore where this function is used.".to_owned()),
                multiple_results: Some("Found {result_count} callers. Consider 'analyze_impact' for complete dependency graph or investigate specific callers with 'find_symbol'.".to_owned()),
                custom,
            },
        ),
    );
    let mut custom: Vec<GuidanceRange> = Vec::new();
    custom.push(range(2, Some(5), "Limited impact radius with {result_count} affected symbols. This change is relatively contained."));
    custom.push(range(20, None, "Significant impact with {result_count} affected symbols. Consider breaking this change into smaller parts."));
    proof {
        assert(range_views(custom@) =~= default_templates()[4].1.custom);
    }
    templates.push(
        (
            "analyze_impact".to_owned(),
            GuidanceTemplate {
                no_results: Some("No impact detected. This symbol appears isolated. Consider using the codanna-navigator agent for comprehensive multi-hop analysis of complex relationships.".to_owned()),
                single_result: Some("Minimal impact radius. This symbol has limited dependencies.".to_owned()),
                multiple_results: Some("Impact analysis shows {result_count} affected symbols. Focus on critical paths or use 'find_symbol' on key dependencies.".to_owned()),
                custom,
            },
        ),
    );
    let mut custom: Vec<GuidanceRange> = Vec::new();
    proof {
        assert(range_views(custom@) =~= default_templates()[5].1.custom);
    }
    templates.push(
        (
            "search_symbols".to_owned(),
            GuidanceTemplate {
                no_results: Some("No symbols match your query. Try 'semantic_search_docs' for natural language search or adjust your pattern.".to_owned()),
                single_result: Some("Found exactly one match. Use 'find_symbol' to get full details about this symbol.".to_owned()),
                multiple_results: Some("Found {result_count} matching symbols. Use 'find_symbol' on specific results for full context or narrow your search with 'kind' parameter.".to_owned()),
                custom,
            },
        ),
    );
    let mut custom: Vec<GuidanceRange> = Vec::new();
    proof {
        assert(range_views(custom@) =~= default_templates()[6].1.custom);
    }
    templates.push(
        (
            "semantic_search_with_context".to_owned(),
            GuidanceTemplate {
                no_results: Some("No semantic matches found. Try different phrasing or ensure documentation exists for the concepts you're searching.".to_owned()),
                single_result: Some("Found one match with full context. Review the relationships to understand how this fits into the codebase.".to_owned()),
                multiple_results: Some("Rich context provided for {result_count} matches. Investigate specific relationships using targeted tools like 'get_calls' or 'find_callers'.".to_owned()),
                custom,
            },
        ),
    );
    let mut custom: Vec<GuidanceRange> = Vec::new();
    proof {
        assert(range_views(custom@) =~= default_templates()[7].1.custom);
    }
    templates.push(
        (
            "get_index_info".to_owned(),
            GuidanceTemplate {
                no_results: None,
                single_result: Some("Index statistics loaded. Use search tools to explore the codebase.".to_owned()),
                multiple_results: None,
                custom,
            },
        ),
    );
    proof {
        assert(template_views(templates@) =~= default_templates());
    }
    templates
}

/// The guidance variables that are used unless the settings say otherwise.
pub fn default_guidance_variables() -> (r: Vec<(String, String)>)
    ensures
        variable_views(r@) == seq![("project"@, "codanna"@)],
{
    let mut vars: Vec<(String, String)> = Vec::new();
    vars.push(("project".to_owned(), "codanna".to_owned()));
    proof {
        assert(variable_views(vars@) =~= seq![("project"@, "codanna"@)]);
    }
    vars
}

impl Default for GuidanceConfig {
    fn default() -> (r: Self)
        ensures
            r.enabled,
            template_views(r.templates@) == default_templates(),
            variable_views(r.variables@) == seq![("project"@, "codanna"@)],
    {
        GuidanceConfig {
            enabled: true,
            templates: default_guidance_templates(),
            variables: default_guidance_variables(),
        }
    }
}

// ---------------------------------------------------------------------------
// Settings
// ---------------------------------------------------------------------------

/// The languages that are configured where no registry of languages is at
/// hand: Rust alone.
pub fn fallback_minimal_languages() -> (r: Vec<(String, LanguageConfig)>)
    ensures
        r@.len() == 1,
        r@[0].0@ == "rust"@,
        r@[0].1.enabled,
        strings_view(r@[0].1.extensions@) == seq!["rs"@],
        r@[0].1.config_files@.len() == 0,
{
    let mut extensions: Vec<String> = Vec::new();
    extensions.push("rs".to_owned());
    proof {
        assert(strings_view(extensions@) =~= seq!["rs"@]);
    }
    let mut langs: Vec<(String, LanguageConfig)> = Vec::new();
    langs.push(
        ("rust".to_owned(), LanguageConfig { enabled: true, extensions, config_files: Vec::new() }),
    );
    langs
}

/// The path covers the other: they are the same, or the other lies below
/// it.
pub open spec fn covers(base: Seq<char>, path: Seq<char>) -> bool {
    path == base || crate::text::is_prefix(base + "/"@, path) || (base.len() > 0 && base.last()
        == '/' && crate::text::is_prefix(base, path))
}

/// The position of the first path, from position `from` on, that covers
/// the given one.
pub open spec fn first_cover(paths: Seq<Seq<char>>, path: Seq<char>, from: int) -> Option<int>
    decreases paths.len() - from,
{
    if from < 0 || from >= paths.len() {
        None
    } else if covers(paths[from], path) {
        Some(from)
    } else {
        first_cover(paths, path, from + 1)
    }
}

/// Some path of the list is covered by the given one.
pub open spec fn any_covered(paths: Seq<Seq<char>>, base: Seq<char>) -> bool {
    exists|i: int| 0 <= i < paths.len() && covers(base, #[trigger] paths[i])
}

/// Those of the first `n` paths that the given one does not cover, in
/// order.
pub open spec fn not_covered(paths: Seq<Seq<char>>, base: Seq<char>, n: int) -> Seq<Seq<char>>
    decreases n,
{
    if n <= 0 {
        Seq::empty()
    } else if covers(base, paths[n - 1]) {
        not_covered(paths, base, n - 1)
    } else {
        not_covered(paths, base, n - 1).push(paths[n - 1])
    }
}

/// Those of the first `n` paths that are not the given one, in order.
pub open spec fn not_equal(paths: Seq<Seq<char>>, path: Seq<char>, n: int) -> Seq<Seq<char>>
    decreases n,
{
    if n <= 0 {
        Seq::empty()
    } else if paths[n - 1] == path {
        not_equal(paths, path, n - 1)
    } else {
        not_equal(paths, path, n - 1).push(paths[n - 1])
    }
}

/// The paths once the given one is added: the paths that it covers leave,
/// where it covers any of the cached paths, and it goes to the end.
pub open spec fn with_path(paths: Seq<Seq<char>>, cache: Seq<Seq<char>>, path: Seq<char>) -> Seq<
    Seq<char>,
> {
    (if any_covered(cache, path) {
        not_covered(paths, path, paths.len() as int)
    } else {
        paths
    }).push(path)
}

fn covers_exec(base: &Vec<char>, path: &Vec<char>) -> (r: bool)
    ensures
        r == covers(base@, path@),
{
    if base.len() == path.len() && crate::text::starts_with(path, base) {
        proof {
            assert(path@.subrange(0, base@.len() as int) =~= path@);
        }
        return true;
    }
    if base.len() > 0 && base[base.len() - 1] == '/' && crate::text::starts_with(path, base) {
        return true;
    }
    let mut with_slash: Vec<char> = Vec::new();
    let mut i: usize = 0;
    while i < base.len()
        invariant
            i <= base.len(),
            with_slash@ == base@.take(i as int),
        decreases base.len() - i,
    {
        with_slash.push(base[i]);
        proof {
            assert(base@.take(i + 1) =~= base@.take(i as int).push(base@[i as int]));
        }
        i = i + 1;
    }
    with_slash.push('/');
    proof {
        reveal_strlit("/");
        assert(base@.take(base@.len() as int) =~= base@);
        assert(with_slash@ =~= base@ + "/"@);
        if path@ == base@ {
            assert(path@.subrange(0, base@.len() as int) =~= path@);
        }
    }
    crate::text::starts_with(path, &with_slash)
}

fn drop_covered(paths: &Vec<String>, base: &Vec<char>) -> (r: Vec<String>)
    ensures
        strings_view(r@) == not_covered(strings_view(paths@), base@, paths@.len() as int),
{
    let ghost pv = strings_view(paths@);
    let mut out: Vec<String> = Vec::new();
    let mut i: usize = 0;
    while i < paths.len()
        invariant
            i <= paths.len(),
            pv == strings_view(paths@),
            strings_view(out@) == not_covered(pv, base@, i as int),
        decreases paths.len() - i,
    {
        let chars = crate::text::chars_of(paths[i].as_str());
        proof {
            assert(pv[i as int] == paths@[i as int]@);
        }
        if !covers_exec(base, &chars) {
            let ghost prev = strings_view(out@);
            out.push(paths[i].clone());
            proof {
                assert(strings_view(out@) =~= prev.push(pv[i as int]));
            }
        }
        i = i + 1;
    }
    out
}

fn drop_equal(paths: &Vec<String>, path: &str) -> (r: Vec<String>)
    ensures
        strings_view(r@) == not_equal(strings_view(paths@), path@, paths@.len() as int),
{
    let ghost pv = strings_view(paths@);
    let mut out: Vec<String> = Vec::new();
    let mut i: usize = 0;
    while i < paths.len()
        invariant
            i <= paths.len(),
            pv == strings_view(paths@),
            strings_view(out@) == not_equal(pv, path@, i as int),
        decreases paths.len() - i,
    {
        proof {
            assert(pv[i as int] == paths@[i as int]@);
        }
        if !crate::text::str_eq(paths[i].as_str(), path) {
            let ghost prev = strings_view(out@);
            out.push(paths[i].clone());
            proof {
                assert(strings_view(out@) =~= prev.push(pv[i as int]));
            }
        }
        i = i + 1;
    }
    out
}

fn copy_paths(paths: &Vec<String>) -> (r: Vec<String>)
    ensures
        strings_view(r@) == strings_view(paths@),
{
    let mut out: Vec<String> = Vec::new();
    let mut i: usize = 0;
    while i < paths.len()
        invariant
            i <= paths.len(),
            out@.len() == i,
            forall|j: int| 0 <= j < i ==> (#[trigger] out@[j])@ == paths@[j]@,
        decreases paths.len() - i,
    {
        out.push(paths[i].clone());
        i = i + 1;
    }
    proof {
        assert(strings_view(out@) =~= strings_view(paths@));
    }
    out
}

impl Default for Settings {
    /// The default settings for this machine.
    fn default() -> (r: Self)
        ensures
            r.indexing.parallel_threads >= 1,
            r.default_for(r.indexing.parallel_threads),
    {
        Settings::with_parallel_threads(default_parallel_threads())
    }
}

impl Settings {
    /// Whether these are the default settings for a machine with the given
    /// number of processors.
    pub open spec fn default_for(&self, parallel_threads: usize) -> bool {
        &&& self.version == 1
        &&& self.index_path@ == ".codanna"@ + "/index"@
        &&& self.workspace_root is None
        &&& !self.debug
        &&& self.indexing.default_for(parallel_threads)
        &&& self.indexed_paths_cache@.len() == 0
        &&& self.languages@.len() == 1
        &&& self.languages@[0].0@ == "rust"@
        &&& self.languages@[0].1.enabled
        &&& strings_view(self.languages@[0].1.extensions@) == seq!["rs"@]
        &&& self.languages@[0].1.config_files@.len() == 0
        &&& self.mcp.max_context_size == 100000
        &&& !self.mcp.debug
        &&& self.semantic_search.enabled
        &&& self.semantic_search.model@ == "AllMiniLML6V2"@
        &&& self.semantic_search.threshold_bits == DEFAULT_THRESHOLD_BITS
        &&& self.file_watch.enabled
        &&& self.file_watch.debounce_ms == 500
        &&& self.server.mode@ == "stdio"@
        &&& self.server.bind@ == "127.0.0.1:8080"@
        &&& self.server.watch_interval == 5
        &&& self.guidance.enabled
        &&& template_views(self.guidance.templates@) == default_templates()
        &&& variable_views(self.guidance.variables@) == seq![("project"@, "codanna"@)]
    }

    /// The default settings for a machine with the given number of
    /// processors.
    pub fn with_parallel_threads(parallel_threads: usize) -> (r: Self)
        ensures
            r.default_for(parallel_threads),
    {
        Settings {
            version: default_version(),
            index_path: default_index_path(),
            workspace_root: None,
            debug: false,
            indexing: IndexingConfig::with_parallel_threads(parallel_threads),
            indexed_paths_cache: Vec::new(),
            languages: fallback_minimal_languages(),
            mcp: McpConfig::default(),
            semantic_search: SemanticSearchConfig::default(),
            file_watch: FileWatchConfig::default(),
            server: ServerConfig::default(),
            guidance: GuidanceConfig::default(),
        }
    }

    /// Adds a directory to the indexed paths. `canonical_path` is the
    /// directory in canonical form, `path` the directory as the user wrote
    /// it. A directory that is indexed already, itself or through a
    /// directory above it, is refused; directories below the new one leave
    /// the list.
    pub fn add_indexed_path(&mut self, canonical_path: &str, path: &str) -> (r: Result<(), String>)
        ensures
            match first_cover(strings_view(old(self).indexed_paths_cache@), canonical_path@, 0) {
                Some(i) => *final(self) == *old(self) && r is Err && r->Err_0@ == (if strings_view(
                    old(self).indexed_paths_cache@,
                )[i] == canonical_path@ {
                    "Path already indexed: "@ + path@
                } else {
                    "Path already indexed: "@ + path@ + " (covered by "@ + strings_view(
                        old(self).indexed_paths_cache@,
                    )[i] + ")"@
                }),
                None => r is Ok && strings_view(final(self).indexing.indexed_paths@) == with_path(
                    strings_view(old(self).indexing.indexed_paths@),
                    strings_view(old(self).indexed_paths_cache@),
                    canonical_path@,
                ) && strings_view(final(self).indexed_paths_cache@) == with_path(
                    strings_view(old(self).indexed_paths_cache@),
                    strings_view(old(self).indexed_paths_cache@),
                    canonical_path@,
                ),
            },
    {
        let canonical = crate::text::chars_of(canonical_path);
        let ghost cache = strings_view(self.indexed_paths_cache@);
        let mut has_descendants = false;
        let mut i: usize = 0;
        while i < self.indexed_paths_cache.len()
            invariant
                i <= self.indexed_paths_cache.len(),
                *self == *old(self),
                cache == strings_view(self.indexed_paths_cache@),
                canonical@ == canonical_path@,
                first_cover(cache, canonical@, 0) == first_cover(cache, canonical@, i as int),
                has_descendants == (exists|j: int|
                    0 <= j < i && covers(canonical@, #[trigger] cache[j])),
            decreases self.indexed_paths_cache.len() - i,
        {
            let existing = crate::text::chars_of(self.indexed_paths_cache[i].as_str());
            proof {
                assert(cache[i as int] == self.indexed_paths_cache@[i as int]@);
            }
            if covers_exec(&existing, &canonical) {
                let mut message = "Path already indexed: ".to_owned();
                message.append(path);
                if !crate::text::str_eq(self.indexed_paths_cache[i].as_str(), canonical_path) {
                    message.append(" (covered by ");
                    message.append(self.indexed_paths_cache[i].as_str());
                    message.append(")");
                }
                return Err(message);
            }
            let ghost before = has_descendants;
            if covers_exec(&canonical, &existing) {
                has_descendants = true;
            }
            proof {
                if before {
                    let j = choose|j: int| 0 <= j < i && covers(canonical@, #[trigger] cache[j]);
                    assert(0 <= j < i + 1 && covers(canonical@, cache[j]));
                }
                if covers(canonical@, cache[i as int]) {
                    assert(0 <= i < i + 1 && covers(canonical@, cache[i as int]));
                }
                if exists|j: int| 0 <= j < i + 1 && covers(canonical@, #[trigger] cache[j]) {
                    let j = choose|j: int|
                        0 <= j < i + 1 && covers(canonical@, #[trigger] cache[j]);
                    if j < i {
                        assert(before);
                    }
                }
            }
            i = i + 1;
        }
        proof {
            assert(has_descendants == any_covered(cache, canonical@));
        }
        let mut paths = if has_descendants {
            drop_covered(&self.indexing.indexed_paths, &canonical)
        } else {
            copy_paths(&self.indexing.indexed_paths)
        };
        let mut cached = if has_descendants {
            drop_covered(&self.indexed_paths_cache, &canonical)
        } else {
            copy_paths(&self.indexed_paths_cache)
        };
        let ghost kept_paths = strings_view(paths@);
        let ghost kept_cached = strings_view(cached@);
        paths.push(canonical_path.to_owned());
        cached.push(canonical_path.to_owned());
        proof {
            assert(strings_view(paths@) =~= kept_paths.push(canonical_path@));
            assert(strings_view(cached@) =~= kept_cached.push(canonical_path@));
        }
        self.indexing.indexed_paths = paths;
        self.indexed_paths_cache = cached;
        Ok(())
    }

    /// Takes a directory out of the indexed paths. `canonical_path` is the
    /// directory in canonical form, `path` the directory as the user wrote
    /// it. A directory that is not in the list is an error.
    pub fn remove_indexed_path(&mut self, canonical_path: &str, path: &str) -> (r: Result<
        (),
        String,
    >)
        ensures
            strings_view(final(self).indexing.indexed_paths@) == not_equal(
                strings_view(old(self).indexing.indexed_paths@),
                canonical_path@,
                old(self).indexing.indexed_paths@.len() as int,
            ),
            strings_view(final(self).indexed_paths_cache@) == not_equal(
                strings_view(old(self).indexed_paths_cache@),
                canonical_path@,
                old(self).indexed_paths_cache@.len() as int,
            ),
            final(self).indexing.indexed_paths@.len() == old(self).indexing.indexed_paths@.len()
                ==> r is Err && r->Err_0@ == "Path not found in indexed paths: "@ + path@,
            final(self).indexing.indexed_paths@.len() != old(self).indexing.indexed_paths@.len()
                ==> r is Ok,
    {
        let length_before = self.indexing.indexed_paths.len();
        let paths = drop_equal(&self.indexing.indexed_paths, canonical_path);
        let cached = drop_equal(&self.indexed_paths_cache, canonical_path);
        proof {
            assert(strings_view(paths@).len() == paths@.len());
        }
        self.indexing.indexed_paths = paths;
        self.indexed_paths_cache = cached;
        if self.indexing.indexed_paths.len() == length_before {
            return Err(concat("Path not found in indexed paths: ", path));
        }
        Ok(())
    }

    /// The indexed paths; none where none are configured.
    pub fn get_indexed_paths(&self) -> (r: Vec<String>)
        ensures
            strings_view(r@) == strings_view(self.indexing.indexed_paths@),
    {
        copy_paths(&self.indexing.indexed_paths)
    }
}

} // verus!
