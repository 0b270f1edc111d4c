//! The document store: chunks of ingested files, each tagged with the name of
//! the file it came from.
use vstd::prelude::*;
use crate::chunker::{
    all_bounded, covers, has_extension, kind_of_name, markdown_ext, markdown_split, solidity_ext,
    solidity_split, split, split_spec, views_of, ChunkError, SourceKind, MAX_CHUNK_SIZE,
};
use crate::config::Config;

verus! {

/// One segment of a file's text, with the name of that file.
pub struct UniswapChunk {
    pub file_name: String,
    pub content: String,
}

/// A chunk as a pair of its file name and its text.
pub open spec fn chunk_view(c: UniswapChunk) -> (Seq<char>, Seq<char>) {
    (c.file_name@, c.content@)
}

pub open spec fn chunk_views(docs: Seq<UniswapChunk>) -> Seq<(Seq<char>, Seq<char>)> {
    docs.map_values(|c: UniswapChunk| chunk_view(c))
}

/// Each piece of text tagged with the file name.
pub open spec fn tagged(name: Seq<char>, pieces: Seq<Seq<char>>) -> Seq<(Seq<char>, Seq<char>)> {
    pieces.map_values(|p: Seq<char>| (name, p))
}

/// The chunks one file contributes: those of the splitter its name routes it
/// to, or none.
pub open spec fn file_chunks(name: Seq<char>, text: Seq<char>) -> Seq<(Seq<char>, Seq<char>)> {
    match kind_of_name(name) {
        Some(kind) => tagged(name, split_spec(text, kind, MAX_CHUNK_SIZE as nat)),
        None => Seq::empty(),
    }
}

/// The chunks a sequence of (file name, text) pairs contributes, in order.
pub open spec fn files_chunks(files: Seq<(Seq<char>, Seq<char>)>) -> Seq<(Seq<char>, Seq<char>)>
    decreases files.len(),
{
    if files.len() == 0 {
        Seq::empty()
    } else {
        files_chunks(files.drop_last()) + file_chunks(files.last().0, files.last().1)
    }
}

/// A `.md` file goes only to the Markdown splitter, a `.sol` file only to the
/// Solidity splitter, and a file of any other extension yields no chunk.
pub proof fn extension_routing(name: Seq<char>, text: Seq<char>)
    ensures
        has_extension(name, markdown_ext()) ==> kind_of_name(name) == Some(SourceKind::Markdown)
            && file_chunks(name, text) == tagged(name, markdown_split(text, MAX_CHUNK_SIZE as nat)),
        has_extension(name, solidity_ext()) ==> kind_of_name(name) == Some(SourceKind::Solidity)
            && file_chunks(name, text) == tagged(name, solidity_split(text, MAX_CHUNK_SIZE as nat)),
        !has_extension(name, markdown_ext()) && !has_extension(name, solidity_ext())
            ==> file_chunks(name, text).len() == 0,
{
    if has_extension(name, markdown_ext()) && has_extension(name, solidity_ext()) {
        let n = name.len();
        assert(name.subrange(n - 2, n as int)[1] == name[n - 1]);
        assert(name.subrange(n - 3, n as int)[2] == name[n - 1]);
        assert(markdown_ext()[1] != solidity_ext()[2]);
    }
}

/// The texts of a sequence of chunks.
pub open spec fn contents(v: Seq<(Seq<char>, Seq<char>)>) -> Seq<Seq<char>> {
    v.map_values(|p: (Seq<char>, Seq<char>)| p.1)
}

/// The chunks appended after the first `start` ones cover `text`.
pub open spec fn appended_cover(
    after: Seq<(Seq<char>, Seq<char>)>,
    start: int,
    text: Seq<char>,
) -> bool {
    covers(contents(after.skip(start)), text)
}

pub open spec fn file_views(files: Seq<(String, String)>) -> Seq<(Seq<char>, Seq<char>)> {
    files.map_values(|f: (String, String)| (f.0@, f.1@))
}

impl UniswapChunk {
    /// An empty chunk of the named file.
    pub fn new(file_name: &str) -> (r: UniswapChunk)
        ensures
            r.file_name@ == file_name@,
            r.content@.len() == 0,
    {
        UniswapChunk { file_name: String::from_str(file_name), content: String::new() }
    }
}

/// Collects the chunks of ingested files; they are handed to the embedding
/// index when ingestion is done.
pub struct RAGBuilder {
    docs: Vec<UniswapChunk>,
    cfg: Config,
}

impl RAGBuilder {
    #[verifier::type_invariant]
    spec fn chunks_bounded(&self) -> bool {
        forall|i: int|
            0 <= i < self.docs@.len() ==> 0 < (#[trigger] self.docs@[i]).content@.len()
                <= MAX_CHUNK_SIZE
    }

    /// Every stored chunk is non-empty and within the chunk size.
    pub open spec fn wf(&self) -> bool {
        forall|i: int|
            0 <= i < self.doc_views().len() ==> 0 < (#[trigger] self.doc_views()[i]).1.len()
                <= MAX_CHUNK_SIZE
    }

    pub closed spec fn doc_views(&self) -> Seq<(Seq<char>, Seq<char>)> {
        chunk_views(self.docs@)
    }

    proof fn lemma_wf(&self)
        requires
            self.chunks_bounded(),
        ensures
            self.wf(),
    {
        assert forall|i: int| 0 <= i < self.doc_views().len() implies 0 < (#[trigger] self.doc_views()[i]).1.len()
            <= MAX_CHUNK_SIZE by {
            assert(self.doc_views()[i] == chunk_view(self.docs@[i]));
        }
    }

    pub closed spec fn cfg_view(&self) -> Config {
        self.cfg
    }

    /// A builder with no chunks yet.
    pub fn new(cfg: Config) -> (r: RAGBuilder)
        ensures
            r.wf(),
            r.doc_views().len() == 0,
            r.cfg_view() == cfg,
    {
        let r = RAGBuilder { docs: Vec::new(), cfg };
        proof {
            r.lemma_wf();
        }
        r
    }

    /// The configuration the builder was made with.
    pub fn config(&self) -> (r: &Config)
        ensures
            *r == self.cfg_view(),
    {
        &self.cfg
    }

    /// The chunks stored so far, in ingestion order.
    pub fn docs(&self) -> (r: &Vec<UniswapChunk>)
        ensures
            chunk_views(r@) == self.doc_views(),
            self.wf(),
    {
        proof {
            use_type_invariant(&*self);
            self.lemma_wf();
        }
        &self.docs
    }

    /// Hands the stored chunks over.
    pub fn into_docs(self) -> (r: Vec<UniswapChunk>)
        ensures
            chunk_views(r@) == self.doc_views(),
            forall|i: int| 0 <= i < r@.len() ==> 0 < #[trigger] r@[i].content@.len() <= MAX_CHUNK_SIZE,
    {
        proof {
            use_type_invariant(&self);
        }
        self.docs
    }

    /// Appends one chunk per piece, each tagged with `name`.
    fn push_pieces(&mut self, pieces: Vec<String>, name: &str)
        requires
            all_bounded(views_of(pieces@), MAX_CHUNK_SIZE as nat),
        ensures
            final(self).cfg == old(self).cfg,
            final(self).doc_views() == old(self).doc_views() + tagged(name@, views_of(pieces@)),
            contents(final(self).doc_views().skip(old(self).doc_views().len() as int)) == views_of(pieces@),
    {
        proof {
            use_type_invariant(&*self);
        }
        let mut docs: Vec<UniswapChunk> = Vec::new();
        std::mem::swap(&mut docs, &mut self.docs);
        let ghost start = chunk_views(docs@);
        assert(start == old(self).doc_views());
        let mut i: usize = 0;
        while i < pieces.len()
            invariant
                self.cfg == old(self).cfg,
                start == old(self).doc_views(),
                i <= pieces@.len(),
                all_bounded(views_of(pieces@), MAX_CHUNK_SIZE as nat),
                forall|k: int|
                    0 <= k < docs@.len() ==> 0 < (#[trigger] docs@[k]).content@.len() <= MAX_CHUNK_SIZE,
                chunk_views(docs@) == start + tagged(name@, views_of(pieces@.subrange(0, i as int))),
            decreases pieces@.len() - i,
        {
            let mut doc = UniswapChunk::new(name);
            doc.content = pieces[i].clone();
            assert(views_of(pieces@)[i as int] == pieces@[i as int]@);
            assert(chunk_view(doc) == (name@, pieces@[i as int]@));
            let ghost prev = docs@;
            docs.push(doc);
            assert(chunk_views(docs@) =~= chunk_views(prev).push(chunk_view(doc)));
            assert(views_of(pieces@.subrange(0, i + 1)) =~= views_of(pieces@.subrange(0, i as int)).push(pieces@[i as int]@));
            assert(chunk_views(docs@) =~= start + tagged(name@, views_of(pieces@.subrange(0, i + 1))));
            assert forall|k: int| 0 <= k < docs@.len() implies 0 < (#[trigger] docs@[k]).content@.len()
                <= MAX_CHUNK_SIZE by {
                if k < prev.len() {
                    assert(docs@[k] == prev[k]);
                }
            }
            i = i + 1;
        }
        assert(pieces@.subrange(0, i as int) =~= pieces@);
        std::mem::swap(&mut docs, &mut self.docs);
        assert(self.doc_views().skip(start.len() as int) =~= tagged(name@, views_of(pieces@)));
        assert(contents(tagged(name@, views_of(pieces@))) =~= views_of(pieces@));
    }

    /// Splits a Markdown file and stores its chunks, tagged with `name`.
    pub fn ingest_md_file(&mut self, file: &str, name: &str)
        ensures
            final(self).wf(),
            final(self).cfg_view() == old(self).cfg_view(),
            final(self).doc_views() == old(self).doc_views() + tagged(
                name@,
                split_spec(file@, SourceKind::Markdown, MAX_CHUNK_SIZE as nat),
            ),
            appended_cover(final(self).doc_views(), old(self).doc_views().len() as int, file@),
    {
        match split(file, SourceKind::Markdown, MAX_CHUNK_SIZE) {
            Ok(pieces) => self.push_pieces(pieces, name),
            Err(_) => {},
        }
        proof {
            use_type_invariant(&*self);
            self.lemma_wf();
        }
    }

    /// Splits a Solidity file and stores its chunks, tagged with `name`.
    pub fn ingest_solidity_file(&mut self, file: &str, name: &str) -> (r: Result<(), ChunkError>)
        ensures
            final(self).wf(),
            final(self).cfg_view() == old(self).cfg_view(),
            r is Ok,
            final(self).doc_views() == old(self).doc_views() + tagged(
                name@,
                split_spec(file@, SourceKind::Solidity, MAX_CHUNK_SIZE as nat),
            ),
            appended_cover(final(self).doc_views(), old(self).doc_views().len() as int, file@),
    {
        let r = match split(file, SourceKind::Solidity, MAX_CHUNK_SIZE) {
            Ok(pieces) => {
                self.push_pieces(pieces, name);
                Ok(())
            },
            Err(e) => Err(e),
        };
        proof {
            use_type_invariant(&*self);
            self.lemma_wf();
        }
        r
    }

    /// Stores the chunks of one file, routed by its name; a file of any other
    /// extension contributes nothing and is no error.
    pub fn ingest_file(&mut self, name: &str, text: &str) -> (r: Result<(), ChunkError>)
        ensures
            final(self).wf(),
            final(self).cfg_view() == old(self).cfg_view(),
            r is Ok,
            final(self).doc_views() == old(self).doc_views() + file_chunks(name@, text@),
            kind_of_name(name@) is Some ==> appended_cover(
                final(self).doc_views(),
                old(self).doc_views().len() as int,
                text@,
            ),
    {
        proof {
            use_type_invariant(&*self);
            self.lemma_wf();
        }
        match crate::chunker::route(name) {
            Some(SourceKind::Markdown) => {
                self.ingest_md_file(text, name);
                Ok(())
            },
            Some(SourceKind::Solidity) => self.ingest_solidity_file(text, name),
            None => {
                assert(file_chunks(name@, text@) =~= Seq::empty());
                assert(self.doc_views() + file_chunks(name@, text@) =~= self.doc_views());
                Ok(())
            },
        }
    }

    /// Stores the chunks of every (file name, text) pair, in order.
    pub fn ingest_docs(&mut self, files: &Vec<(String, String)>) -> (r: Result<(), ChunkError>)
        ensures
            final(self).wf(),
            final(self).cfg_view() == old(self).cfg_view(),
            r is Ok,
            final(self).doc_views() == old(self).doc_views() + files_chunks(file_views(files@)),
    {
        proof {
            use_type_invariant(&*self);
            self.lemma_wf();
        }
        let mut i: usize = 0;
        while i < files.len()
            invariant
                self.wf(),
                self.cfg == old(self).cfg,
                i <= files@.len(),
                self.doc_views() == old(self).doc_views() + files_chunks(file_views(files@.subrange(0, i as int))),
            decreases files@.len() - i,
        {
            let _ = self.ingest_file(&files[i].0, &files[i].1);
            let ghost fs = file_views(files@.subrange(0, i + 1));
            assert(fs.drop_last() =~= file_views(files@.subrange(0, i as int)));
            assert(fs.last() == (files@[i as int].0@, files@[i as int].1@));
            assert(self.doc_views() =~= old(self).doc_views() + files_chunks(fs));
            i = i + 1;
        }
        assert(files@.subrange(0, i as int) =~= files@);
        Ok(())
    }
}

} // verus!
