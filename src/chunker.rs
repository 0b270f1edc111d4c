//! Structure-aware splitting of file text into bounded chunks, and routing
//! of files to a splitter by their extension.
use vstd::prelude::*;
use vstd::string::*;

verus! {

/// The largest chunk, in characters, that ingestion produces.
pub const MAX_CHUNK_SIZE: usize = 1000;

/// Which splitter a file goes to.
#[derive(Clone, Copy, Debug, PartialEq, Eq, Structural)]
pub enum SourceKind {
    Markdown,
    Solidity,
}

/// Why a text could not be split.
#[derive(Clone, Copy, Debug, PartialEq, Eq, Structural)]
pub enum ChunkError {
    /// The requested chunk size is zero.
    InvalidChunkSize,
    /// The source-code grammar could not be loaded.
    GrammarUnavailable,
}

#[verifier::external_type_specification]
#[verifier::external_body]
pub struct ExCodeSplitterError(text_splitter::CodeSplitterError);

/// `name` ends in `.ext` and has at least one character before that dot,
/// which is when a file name has `ext` as its extension.
pub open spec fn has_extension(name: Seq<char>, ext: Seq<char>) -> bool {
    name.len() > ext.len() + 1
        && name[name.len() - ext.len() - 1] == '.'
        && name.subrange(name.len() - ext.len(), name.len() as int) == ext
}

pub open spec fn markdown_ext() -> Seq<char> {
    seq!['m', 'd']
}

pub open spec fn solidity_ext() -> Seq<char> {
    seq!['s', 'o', 'l']
}

/// The splitter a file name is routed to, if any.
pub open spec fn kind_of_name(name: Seq<char>) -> Option<SourceKind> {
    if has_extension(name, markdown_ext()) {
        Some(SourceKind::Markdown)
    } else if has_extension(name, solidity_ext()) {
        Some(SourceKind::Solidity)
    } else {
        None
    }
}

/// The chunks that text-splitter's Markdown splitter makes of a text.
pub uninterp spec fn markdown_split(text: Seq<char>, capacity: nat) -> Seq<Seq<char>>;

/// The chunks that text-splitter's code splitter, with the Solidity grammar,
/// makes of a text.
pub uninterp spec fn solidity_split(text: Seq<char>, capacity: nat) -> Seq<Seq<char>>;

/// Every chunk is non-empty and at most `capacity` characters long.
pub open spec fn all_bounded(chunks: Seq<Seq<char>>, capacity: nat) -> bool {
    forall|i: int| 0 <= i < chunks.len() ==> 0 < (#[trigger] chunks[i]).len() <= capacity
}

/// Whether a character has the Unicode White_Space property, which is what
/// `char::is_whitespace` and `str::trim` go by.
pub open spec fn is_whitespace(c: char) -> bool {
    let n = c as u32;
    (0x09 <= n <= 0x0d) || n == 0x20 || n == 0x85 || n == 0xa0 || n == 0x1680 || (0x2000 <= n
        <= 0x200a) || n == 0x2028 || n == 0x2029 || n == 0x202f || n == 0x205f || n == 0x3000
}

/// The text with every whitespace character removed.
pub open spec fn strip_ws(s: Seq<char>) -> Seq<char> {
    s.filter(|c: char| !is_whitespace(c))
}

/// Joined in order, the chunks hold all of the text but whitespace.
pub open spec fn covers(chunks: Seq<Seq<char>>, text: Seq<char>) -> bool {
    strip_ws(chunks.flatten()) == strip_ws(text)
}

pub open spec fn views_of(v: Seq<String>) -> Seq<Seq<char>> {
    v.map_values(|s: String| s@)
}

/// Relies on text_splitter::MarkdownSplitter::chunks with a character-sized
/// ChunkConfig: chunks are consecutive spans of the text without overlap,
/// trimmed of whitespace at both ends; empty ones are dropped, and each is at
/// most the capacity in characters.
#[verifier::external_body]
fn split_markdown(text: &str, capacity: usize) -> (r: Vec<String>)
    requires
        capacity > 0,
    ensures
        views_of(r@) == markdown_split(text@, capacity as nat),
        all_bounded(views_of(r@), capacity as nat),
        covers(views_of(r@), text@),
{
    let config = text_splitter::ChunkConfig::new(capacity);
    let splitter = text_splitter::MarkdownSplitter::new(config);
    splitter.chunks(text).map(String::from).collect()
}

/// Relies on text_splitter::CodeSplitter::new with tree_sitter_solidity's
/// grammar and a character-sized ChunkConfig, then its `chunks`. Construction
/// fails only when tree-sitter refuses the grammar's version, and tree-sitter
/// accepts the version this grammar has. Chunks are consecutive spans of the
/// text without overlap, trimmed of whitespace at both ends; empty ones are
/// dropped, and each is at most the capacity in characters.
#[verifier::external_body]
fn split_solidity(text: &str, capacity: usize) -> (r: Result<
    Vec<String>,
    text_splitter::CodeSplitterError,
>)
    requires
        capacity > 0,
    ensures
        r is Ok,
        r is Ok ==> views_of(r->Ok_0@) == solidity_split(text@, capacity as nat),
        r is Ok ==> all_bounded(views_of(r->Ok_0@), capacity as nat),
        r is Ok ==> covers(views_of(r->Ok_0@), text@),
{
    let config = text_splitter::ChunkConfig::new(capacity);
    let splitter = text_splitter::CodeSplitter::new(tree_sitter_solidity::LANGUAGE, config)?;
    Ok(splitter.chunks(text).map(String::from).collect())
}

/// Whether `name` has the extension `ext`.
fn name_has_extension(name: &str, ext: &str) -> (r: bool)
    ensures
        r == has_extension(name@, ext@),
{
    let n = name.unicode_len();
    let e = ext.unicode_len();
    if n <= e || n - e <= 1 {
        return false;
    }
    if name.get_char(n - e - 1) != '.' {
        return false;
    }
    let mut i: usize = 0;
    while i < e
        invariant
            n == name@.len(),
            e == ext@.len(),
            n > e + 1,
            i <= e,
            forall|j: int| 0 <= j < i ==> name@[n - e + j] == ext@[j],
        decreases e - i,
    {
        if name.get_char(n - e + i) != ext.get_char(i) {
            assert(name@.subrange(n - e, n as int)[i as int] != ext@[i as int]);
            return false;
        }
        i = i + 1;
    }
    assert(name@.subrange(n - e, n as int) =~= ext@);
    true
}

/// Routes a file by its name: `.md` files to the Markdown splitter, `.sol`
/// files to the Solidity splitter, anything else nowhere.
pub fn route(file_name: &str) -> (r: Option<SourceKind>)
    ensures
        r == kind_of_name(file_name@),
{
    proof {
        reveal_strlit("md");
        reveal_strlit("sol");
        assert("md"@ =~= markdown_ext());
        assert("sol"@ =~= solidity_ext());
    }
    if name_has_extension(file_name, "md") {
        Some(SourceKind::Markdown)
    } else if name_has_extension(file_name, "sol") {
        Some(SourceKind::Solidity)
    } else {
        None
    }
}

/// The chunks a splitter of the given kind makes of `text`.
pub open spec fn split_spec(text: Seq<char>, kind: SourceKind, capacity: nat) -> Seq<Seq<char>> {
    match kind {
        SourceKind::Markdown => markdown_split(text, capacity),
        SourceKind::Solidity => solidity_split(text, capacity),
    }
}

/// Splits `text` with the splitter for `kind` into chunks of at most
/// `capacity` characters.
pub fn split(text: &str, kind: SourceKind, capacity: usize) -> (r: Result<Vec<String>, ChunkError>)
    ensures
        capacity == 0 <==> r == Err::<Vec<String>, ChunkError>(ChunkError::InvalidChunkSize),
        capacity > 0 ==> r is Ok,
        r is Ok ==> views_of(r->Ok_0@) == split_spec(text@, kind, capacity as nat),
        r is Ok ==> all_bounded(views_of(r->Ok_0@), capacity as nat),
        r is Ok ==> covers(views_of(r->Ok_0@), text@),
{
    if capacity == 0 {
        return Err(ChunkError::InvalidChunkSize);
    }
    match kind {
        SourceKind::Markdown => Ok(split_markdown(text, capacity)),
        SourceKind::Solidity => match split_solidity(text, capacity) {
            Ok(chunks) => Ok(chunks),
            Err(_) => Err(ChunkError::GrammarUnavailable),
        },
    }
}

} // verus!
