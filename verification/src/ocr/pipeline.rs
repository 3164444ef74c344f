//! From the recogniser's lines to the entries of a page.
//!
//! The recogniser is asked once for every chunk, from the top of the page
//! down. What it returns for a chunk is placed, cleaned, merged and moved to
//! the page before the next chunk is taken up. A [`PageJob`] keeps the
//! order: it names the chunk to recognise next, takes the lines found in it,
//! and hands the entries out once every chunk has been taken.

use vstd::prelude::*;
use vstd::string::*;
use crate::ocr::chunk::{chunk_rows, chunks_of, Chunk};
use crate::ocr::geometry::{resolve, LineGeometry};
use crate::ocr::merge::{auto_merge, merged, MergeConfig};
use crate::ocr::renorm::{page_results, renormalize_results};
use crate::ocr::result::{orientation_name, views, OcrResult, OcrResultView};
use crate::ocr::text::{blank, cleaned, has_cjk, is_blank, post_process_text};

verus! {

/// One line as the recogniser returns it for a chunk.
#[derive(Clone, Debug)]
pub struct RawLine {
    pub text: String,
    /// Where the line stands; a line without it cannot be placed.
    pub geometry: Option<LineGeometry>,
}

/// What a [`RawLine`] holds, with its text as a sequence.
pub struct RawLineView {
    pub text: Seq<char>,
    pub geometry: Option<LineGeometry>,
}

impl View for RawLine {
    type V = RawLineView;

    open spec fn view(&self) -> RawLineView {
        RawLineView { text: self.text@, geometry: self.geometry }
    }
}

/// The views of a sequence of lines.
pub open spec fn line_views(lines: Seq<RawLine>) -> Seq<RawLineView> {
    lines.map_values(|l: RawLine| l@)
}

/// The entry for one line in a chunk of the given size: none for a line
/// without geometry, for one whose cleaned text is blank, and for one whose
/// geometry cannot be resolved.
pub open spec fn placed_line(line: RawLineView, chunk_width: u32, chunk_height: u32) -> Option<
    OcrResultView,
> {
    match line.geometry {
        None => None,
        Some(g) => {
            let text = cleaned(line.text, has_cjk(line.text));
            if blank(text) {
                None
            } else {
                match g.resolved(chunk_width, chunk_height) {
                    Err(_) => None,
                    Ok(r) => Some(
                        OcrResultView {
                            text,
                            tight_bounding_box: r.bounding_box,
                            is_merged: Some(false),
                            forced_orientation: Some(orientation_name(r.orientation)),
                        },
                    ),
                }
            }
        },
    }
}

/// The entries for the lines of a chunk, in order.
pub open spec fn placed_lines(lines: Seq<RawLineView>, chunk_width: u32, chunk_height: u32) -> Seq<
    OcrResultView,
> {
    lines.filter_map(|l: RawLineView| placed_line(l, chunk_width, chunk_height))
}

/// The entries of one chunk on the page: its lines placed, merged and moved
/// to the page. A page without width or height has none.
pub open spec fn chunk_results(
    lines: Seq<RawLineView>,
    chunk: Chunk,
    full_height: u32,
    space: bool,
) -> Seq<OcrResultView> {
    if chunk.width == 0 || full_height == 0 {
        Seq::empty()
    } else {
        page_results(
            merged(
                placed_lines(lines, chunk.width, chunk.height),
                chunk.width,
                chunk.height,
                space,
            ),
            chunk.offset_y,
            chunk.width,
            full_height,
        )
    }
}

/// Places the lines of a chunk: each line that has geometry and text
/// becomes an entry with its upright box in chunk pixels.
pub fn flatten_lines(lines: Vec<RawLine>, chunk_width: u32, chunk_height: u32) -> (out: Vec<
    OcrResult,
>)
    ensures
        views(out@) == placed_lines(line_views(lines@), chunk_width, chunk_height),
{
    let ghost all = line_views(lines@);
    let ghost place = |l: RawLineView| placed_line(l, chunk_width, chunk_height);
    let mut out: Vec<OcrResult> = Vec::new();
    let mut i: usize = 0;
    assert(all.take(0).filter_map(place) == Seq::<OcrResultView>::empty());
    assert(views(out@) == Seq::<OcrResultView>::empty());
    while i < lines.len()
        invariant
            i <= lines.len(),
            all == line_views(lines@),
            place == |l: RawLineView| placed_line(l, chunk_width, chunk_height),
            views(out@) == all.take(i as int).filter_map(place),
        decreases lines.len() - i,
    {
        let line = &lines[i];
        proof {
            all.lemma_filter_map_take_succ(place, i as int);
            assert(all[i as int] == line@);
        }
        let ghost before = out@;
        match line.geometry {
            None => {},
            Some(g) => {
                let text = post_process_text(line.text.clone());
                if !is_blank(text.as_str()) {
                    match resolve(&g, chunk_width, chunk_height) {
                        Err(_) => {},
                        Ok(r) => {
                            let entry = OcrResult {
                                text,
                                tight_bounding_box: r.bounding_box,
                                is_merged: Some(false),
                                forced_orientation: Some(r.orientation.name()),
                            };
                            assert(Some(entry@) == placed_line(line@, chunk_width, chunk_height));
                            out.push(entry);
                            assert(views(out@) == views(before) + seq![entry@]);
                        },
                    }
                }
            },
        }
        i += 1;
    }
    assert(all.take(i as int) == all);
    out
}

/// Turns what the recogniser found in one chunk into entries of the page.
/// The chunk is as wide as the page; `full_height` is the page's height.
pub fn process_chunk(lines: Vec<RawLine>, chunk: &Chunk, full_height: u32, config: &MergeConfig) -> (out:
    Vec<OcrResult>)
    ensures
        views(out@) == chunk_results(line_views(lines@), *chunk, full_height, config.adds_space()),
{
    if chunk.width == 0 || full_height == 0 {
        let none: Vec<OcrResult> = Vec::new();
        assert(views(none@) == Seq::<OcrResultView>::empty());
        return none;
    }
    let placed = flatten_lines(lines, chunk.width, chunk.height);
    let joined = auto_merge(placed, chunk.width, chunk.height, config);
    renormalize_results(joined, chunk.offset_y, chunk.width, full_height).unwrap()
}

/// The entries of the first `n` chunks of a page, chunk after chunk.
pub open spec fn results_upto(
    chunks: Seq<Chunk>,
    found: Seq<Seq<RawLineView>>,
    n: int,
    full_height: u32,
    space: bool,
) -> Seq<OcrResultView>
    decreases n,
{
    if n <= 0 {
        Seq::empty()
    } else {
        results_upto(chunks, found, n - 1, full_height, space) + chunk_results(
            found[n - 1],
            chunks[n - 1],
            full_height,
            space,
        )
    }
}

/// The work on one page: which chunk comes next, and the entries so far.
pub struct PageJob {
    width: u32,
    height: u32,
    limit: u32,
    config: MergeConfig,
    chunks: Vec<Chunk>,
    taken: usize,
    results: Vec<OcrResult>,
    found: Ghost<Seq<Seq<RawLineView>>>,
}

impl PageJob {
    /// The chunks of the page.
    pub closed spec fn chunks(&self) -> Seq<Chunk> {
        self.chunks@
    }

    /// Number of chunks whose lines were taken.
    pub closed spec fn taken(&self) -> int {
        self.taken as int
    }

    /// The lines that were taken, chunk by chunk.
    pub closed spec fn found(&self) -> Seq<Seq<RawLineView>> {
        self.found@
    }

    /// The entries gathered so far.
    pub closed spec fn gathered(&self) -> Seq<OcrResultView> {
        views(self.results@)
    }

    /// Height of the page.
    pub closed spec fn page_height(&self) -> u32 {
        self.height
    }

    /// Whether a space goes between merged texts.
    pub closed spec fn adds_space(&self) -> bool {
        self.config.adds_space()
    }

    /// The job's invariant: the chunks are those of the page, and the
    /// entries are those of the chunks taken so far, in order.
    pub closed spec fn wf(&self) -> bool {
        &&& self.chunks@ == chunks_of(self.width, self.height, self.limit)
        &&& self.taken <= self.chunks.len()
        &&& self.found@.len() == self.taken
        &&& views(self.results@) == results_upto(
            self.chunks@,
            self.found@,
            self.taken as int,
            self.height,
            self.config.adds_space(),
        )
    }

    /// Starts the work on a page of the given size, to be recognised in
    /// chunks of at most `limit` rows.
    pub fn new(width: u32, height: u32, limit: u32, config: MergeConfig) -> (job: PageJob)
        ensures
            job.wf(),
            job.chunks() == chunks_of(width, height, limit),
            job.taken() == 0,
            job.found() == Seq::<Seq<RawLineView>>::empty(),
            job.gathered() == Seq::<OcrResultView>::empty(),
            job.page_height() == height,
            job.adds_space() == config.adds_space(),
    {
        let chunks = chunk_rows(width, height, limit);
        let results: Vec<OcrResult> = Vec::new();
        assert(views(results@) == Seq::<OcrResultView>::empty());
        PageJob {
            width,
            height,
            limit,
            config,
            chunks,
            taken: 0,
            results,
            found: Ghost(Seq::empty()),
        }
    }

    /// The chunk to recognise next; none once every chunk was taken.
    pub fn pending(&self) -> (next: Option<Chunk>)
        requires
            self.wf(),
        ensures
            next == (if self.taken() < self.chunks().len() {
                Some(self.chunks()[self.taken()])
            } else {
                None
            }),
    {
        if self.taken < self.chunks.len() {
            Some(self.chunks[self.taken])
        } else {
            None
        }
    }

    /// Takes the lines that the recogniser found in the pending chunk, and
    /// appends its entries to those of the chunks before it. Does nothing
    /// once every chunk was taken.
    pub fn accept(&mut self, lines: Vec<RawLine>)
        requires
            old(self).wf(),
        ensures
            final(self).wf(),
            final(self).chunks() == old(self).chunks(),
            final(self).page_height() == old(self).page_height(),
            final(self).adds_space() == old(self).adds_space(),
            old(self).taken() < old(self).chunks().len() ==> {
                &&& final(self).taken() == old(self).taken() + 1
                &&& final(self).found() == old(self).found().push(line_views(lines@))
                &&& final(self).gathered() == old(self).gathered() + chunk_results(
                    line_views(lines@),
                    old(self).chunks()[old(self).taken()],
                    old(self).page_height(),
                    old(self).adds_space(),
                )
            },
            old(self).taken() >= old(self).chunks().len() ==> {
                &&& final(self).taken() == old(self).taken()
                &&& final(self).found() == old(self).found()
                &&& final(self).gathered() == old(self).gathered()
            },
    {
        if self.taken >= self.chunks.len() {
            return ;
        }
        let chunk = self.chunks[self.taken];
        let ghost before = views(self.results@);
        let ghost found_before = self.found@;
        let ghost taken_before = self.taken as int;
        let ghost seen = line_views(lines@);
        let mut entries = process_chunk(lines, &chunk, self.height, &self.config);
        let ghost added = views(entries@);
        let ghost kept = self.results@;
        self.results.append(&mut entries);
        self.taken = self.taken + 1;
        proof {
            self.found@ = found_before.push(seen);
            assert(views(self.results@) == before + added);
            lemma_results_upto_ignores_later(
                self.chunks@,
                found_before,
                self.found@,
                taken_before,
                self.height,
                self.config.adds_space(),
            );
        }
    }

    /// The entries of the page, once every chunk was taken; none before
    /// that: a page is recognised whole or not at all.
    pub fn finish(self) -> (out: Option<Vec<OcrResult>>)
        requires
            self.wf(),
        ensures
            out is Some <==> self.taken() == self.chunks().len(),
            out matches Some(entries) ==> views(entries@) == results_upto(
                self.chunks(),
                self.found(),
                self.chunks().len() as int,
                self.page_height(),
                self.adds_space(),
            ),
    {
        if self.taken == self.chunks.len() {
            Some(self.results)
        } else {
            None
        }
    }
}

proof fn lemma_results_upto_ignores_later(
    chunks: Seq<Chunk>,
    a: Seq<Seq<RawLineView>>,
    b: Seq<Seq<RawLineView>>,
    n: int,
    full_height: u32,
    space: bool,
)
    requires
        0 <= n <= a.len(),
        a.len() <= b.len(),
        forall|k: int| 0 <= k < n ==> a[k] == b[k],
    ensures
        results_upto(chunks, a, n, full_height, space) == results_upto(
            chunks,
            b,
            n,
            full_height,
            space,
        ),
    decreases n,
{
    if n > 0 {
        lemma_results_upto_ignores_later(chunks, a, b, n - 1, full_height, space);
    }
}

} // verus!
