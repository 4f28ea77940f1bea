//! The per-file pipeline: what to do next for a batch of documents, and what
//! to record when the reader, the renderer or the writer reports back. The
//! caller performs each action and hands back the event; one document's
//! failure never stops the batch.

use crate::metadata::{
    bindings_view, distinct_keys, metadata_of, parse_metadata, resolve_metadata, resolved, Entries,
    FieldBinding, MetadataMapping,
};
use crate::render::{
    data_uri, derive_output_name, html_data_uri, markdown_html, output_name, pdf_reported,
    render_gives, to_html, write_gives,
};
use crate::splitter::{
    delimiter_count, law_fewer_than_two_delimiters, markdown_segment, split_front_matter,
    yaml_segment,
};
use crate::text::strings_view;
use vstd::prelude::*;

verus! {

/// How the processing of one document ended.
#[derive(Debug, Clone, Copy, PartialEq, Eq, Structural)]
pub enum FileStatus {
    /// The artifact was written.
    Success,
    /// The document could not be read.
    ReadError,
    /// The renderer failed on the document.
    RenderError,
    /// The artifact could not be written.
    WriteError,
}

/// The model of a document that is ready for the renderer.
pub struct DocumentModel {
    pub identifier: Seq<char>,
    pub output_name: Seq<char>,
    pub html: Seq<char>,
    pub payload: Seq<char>,
    pub metadata_found: bool,
    pub resolved_metadata: Entries,
}

/// A document that is ready for the renderer.
#[derive(Debug)]
pub struct Document {
    /// The identifier under which the document was read.
    pub identifier: String,
    /// The name of the artifact to write.
    pub output_name: String,
    /// The HTML made of the Markdown segment.
    pub html: String,
    /// The data URI that hands the HTML to the renderer.
    pub payload: String,
    /// Whether the YAML segment gave a metadata mapping.
    pub metadata_found: bool,
    /// The configured fields that the metadata holds.
    pub resolved_metadata: MetadataMapping,
}

impl View for Document {
    type V = DocumentModel;

    open spec fn view(&self) -> DocumentModel {
        DocumentModel {
            identifier: self.identifier@,
            output_name: self.output_name@,
            html: self.html@,
            payload: self.payload@,
            metadata_found: self.metadata_found,
            resolved_metadata: self.resolved_metadata@,
        }
    }
}

/// The metadata mapping of a YAML segment, empty where there is none.
pub open spec fn metadata_or_empty(yaml_text: Seq<char>) -> Entries {
    match metadata_of(yaml_text) {
        Some(entries) => entries,
        None => Seq::empty(),
    }
}

/// What the lines of a document and the field bindings make of it.
pub open spec fn document_of(
    identifier: Seq<char>,
    lines: Seq<Seq<char>>,
    bindings: Seq<(Seq<char>, Seq<char>)>,
) -> DocumentModel {
    let html = markdown_html(markdown_segment(lines));
    DocumentModel {
        identifier,
        output_name: output_name(identifier),
        html,
        payload: data_uri(html),
        metadata_found: metadata_of(yaml_segment(lines)) is Some,
        resolved_metadata: resolved(metadata_or_empty(yaml_segment(lines)), bindings),
    }
}

/// Splits a document, resolves its metadata, converts its Markdown segment
/// and derives the name of its artifact.
///
/// A YAML segment that gives no mapping is no failure: the document then has
/// no resolved metadata and `metadata_found` is false.
pub fn prepare_document(identifier: &str, lines: &Vec<String>, bindings: &Vec<FieldBinding>) -> (doc:
    Document)
    ensures
        doc@ == document_of(identifier@, strings_view(lines@), bindings_view(bindings@)),
        distinct_keys(doc@.resolved_metadata),
{
    let segments = split_front_matter(lines);
    let parsed = parse_metadata(segments.yaml_text.as_str());
    let metadata_found = parsed.is_some();
    let resolved_metadata = match parsed {
        Some(mapping) => resolve_metadata(&mapping, bindings),
        None => resolve_metadata(&MetadataMapping::new(), bindings),
    };
    let html = to_html(segments.markdown_text.as_str());
    let payload = html_data_uri(html.as_str());
    let output_name = derive_output_name(identifier);
    Document {
        identifier: identifier.to_owned(),
        output_name,
        html,
        payload,
        metadata_found,
        resolved_metadata,
    }
}

/// The model of an outcome record.
pub struct OutcomeModel {
    pub identifier: Seq<char>,
    pub status: FileStatus,
    pub metadata_found: bool,
    pub resolved_metadata: Entries,
}

/// The record of what became of one document.
#[derive(Debug)]
pub struct Outcome {
    /// The identifier of the document.
    pub identifier: String,
    /// The stage that failed, if any.
    pub status: FileStatus,
    /// Whether the YAML segment gave a metadata mapping.
    pub metadata_found: bool,
    /// The configured fields that the metadata holds.
    pub resolved_metadata: MetadataMapping,
}

impl View for Outcome {
    type V = OutcomeModel;

    open spec fn view(&self) -> OutcomeModel {
        OutcomeModel {
            identifier: self.identifier@,
            status: self.status,
            metadata_found: self.metadata_found,
            resolved_metadata: self.resolved_metadata@,
        }
    }
}

/// The outcome records as models.
pub open spec fn outcomes_view(outcomes: Seq<Outcome>) -> Seq<OutcomeModel> {
    Seq::new(outcomes.len(), |i: int| outcomes[i]@)
}

/// The record of a document that could not be read.
pub open spec fn unread(identifier: Seq<char>) -> OutcomeModel {
    OutcomeModel {
        identifier,
        status: FileStatus::ReadError,
        metadata_found: false,
        resolved_metadata: Seq::empty(),
    }
}

/// The record of a prepared document whose processing ended with `status`.
pub open spec fn concluded(doc: DocumentModel, status: FileStatus) -> OutcomeModel {
    OutcomeModel {
        identifier: doc.identifier,
        status,
        metadata_found: doc.metadata_found,
        resolved_metadata: doc.resolved_metadata,
    }
}

/// What the caller reports back after an action.
#[derive(Debug)]
pub enum Event {
    /// The lines of the document, or `None` where it could not be read.
    ReadDone(Option<Vec<String>>),
    /// The bytes of the PDF, or `None` where the renderer failed.
    RenderDone(Option<Vec<u8>>),
    /// Whether the artifact was written.
    WriteDone(bool),
}

/// The model of an event.
pub enum EventModel {
    ReadDone(Option<Seq<Seq<char>>>),
    RenderDone(Option<Seq<u8>>),
    WriteDone(bool),
}

impl View for Event {
    type V = EventModel;

    open spec fn view(&self) -> EventModel {
        match self {
            Event::ReadDone(Some(lines)) => EventModel::ReadDone(Some(strings_view(lines@))),
            Event::ReadDone(None) => EventModel::ReadDone(None),
            Event::RenderDone(Some(pdf)) => EventModel::RenderDone(Some(pdf@)),
            Event::RenderDone(None) => EventModel::RenderDone(None),
            Event::WriteDone(written) => EventModel::WriteDone(*written),
        }
    }
}

/// What the caller is to do next.
#[derive(Debug)]
pub enum Action<'a> {
    /// Read the lines of the document with this identifier.
    Read(&'a str),
    /// Render the HTML to a PDF; `payload` holds it as a data URI.
    Render { html: &'a str, payload: &'a str },
    /// Write the PDF under this name.
    Write { output_name: &'a str, pdf: &'a Vec<u8> },
    /// Every document has its record.
    Finished,
}

/// The model of an action.
pub enum ActionModel {
    Read(Seq<char>),
    Render { html: Seq<char>, payload: Seq<char> },
    Write { output_name: Seq<char>, pdf: Seq<u8> },
    Finished,
}

impl<'a> View for Action<'a> {
    type V = ActionModel;

    open spec fn view(&self) -> ActionModel {
        match self {
            Action::Read(identifier) => ActionModel::Read(identifier@),
            Action::Render { html, payload } => ActionModel::Render {
                html: html@,
                payload: payload@,
            },
            Action::Write { output_name, pdf } => ActionModel::Write {
                output_name: output_name@,
                pdf: pdf@,
            },
            Action::Finished => ActionModel::Finished,
        }
    }
}

/// The stage of the document that is being processed.
pub enum StageModel {
    /// Its lines are awaited.
    Reading,
    /// Its PDF is awaited.
    Rendering(DocumentModel),
    /// The report on its artifact is awaited.
    Writing(DocumentModel, Seq<u8>),
}

/// The model of a pipeline: the batch, the records made so far, and the
/// stage of the document in process.
pub struct PipelineState {
    pub inputs: Seq<Seq<char>>,
    pub bindings: Seq<(Seq<char>, Seq<char>)>,
    pub outcomes: Seq<OutcomeModel>,
    pub stage: StageModel,
}

impl PipelineState {
    /// The state before anything was read.
    pub open spec fn initial(
        inputs: Seq<Seq<char>>,
        bindings: Seq<(Seq<char>, Seq<char>)>,
    ) -> PipelineState {
        PipelineState { inputs, bindings, outcomes: Seq::empty(), stage: StageModel::Reading }
    }

    /// Every document has its record.
    pub open spec fn finished(self) -> bool {
        self.outcomes.len() >= self.inputs.len()
    }

    /// The identifier of the document in process.
    pub open spec fn current(self) -> Seq<char> {
        self.inputs[self.outcomes.len() as int]
    }

    /// The records are those of the first inputs, in input order, and the
    /// stage belongs to the document that follows them.
    pub open spec fn valid(self) -> bool {
        &&& self.outcomes.len() <= self.inputs.len()
        &&& forall|i: int|
            0 <= i < self.outcomes.len() ==> (#[trigger] self.outcomes[i]).identifier
                == self.inputs[i]
        &&& self.finished() ==> self.stage is Reading
        &&& match self.stage {
            StageModel::Reading => true,
            StageModel::Rendering(doc) => doc.identifier == self.current(),
            StageModel::Writing(doc, _) => doc.identifier == self.current(),
        }
    }

    /// The state after `outcome` is recorded: the next document is to be
    /// read.
    pub open spec fn record(self, outcome: OutcomeModel) -> PipelineState {
        PipelineState { outcomes: self.outcomes.push(outcome), stage: StageModel::Reading, ..self }
    }

    /// What the caller is to do in this state.
    pub open spec fn action(self) -> ActionModel {
        if self.finished() {
            ActionModel::Finished
        } else {
            match self.stage {
                StageModel::Reading => ActionModel::Read(self.current()),
                StageModel::Rendering(doc) => ActionModel::Render {
                    html: doc.html,
                    payload: doc.payload,
                },
                StageModel::Writing(doc, pdf) => ActionModel::Write {
                    output_name: doc.output_name,
                    pdf,
                },
            }
        }
    }

    /// The state after `event`. An event that does not answer the action of
    /// this state changes nothing.
    pub open spec fn step(self, event: EventModel) -> PipelineState {
        if self.finished() {
            self
        } else {
            match (self.stage, event) {
                (StageModel::Reading, EventModel::ReadDone(None)) => self.record(
                    unread(self.current()),
                ),
                (StageModel::Reading, EventModel::ReadDone(Some(lines))) => PipelineState {
                    stage: StageModel::Rendering(document_of(self.current(), lines, self.bindings)),
                    ..self
                },
                (StageModel::Rendering(doc), EventModel::RenderDone(None)) => self.record(
                    concluded(doc, FileStatus::RenderError),
                ),
                (StageModel::Rendering(doc), EventModel::RenderDone(Some(pdf))) => PipelineState {
                    stage: StageModel::Writing(doc, pdf),
                    ..self
                },
                (StageModel::Writing(doc, _), EventModel::WriteDone(written)) => self.record(
                    concluded(
                        doc,
                        if written {
                            FileStatus::Success
                        } else {
                            FileStatus::WriteError
                        },
                    ),
                ),
                _ => self,
            }
        }
    }
}

/// The stage of the document in process.
#[derive(Debug)]
enum Stage {
    Reading,
    Rendering(Document),
    Writing(Document, Vec<u8>),
}

impl View for Stage {
    type V = StageModel;

    closed spec fn view(&self) -> StageModel {
        match self {
            Stage::Reading => StageModel::Reading,
            Stage::Rendering(doc) => StageModel::Rendering(doc@),
            Stage::Writing(doc, pdf) => StageModel::Writing(doc@, pdf@),
        }
    }
}

/// The pipeline over a batch of documents.
///
/// The caller asks for the next action, performs it, and reports the event;
/// when the action is `Finished`, every input has its outcome record.
#[derive(Debug)]
pub struct Pipeline {
    inputs: Vec<String>,
    bindings: Vec<FieldBinding>,
    outcomes: Vec<Outcome>,
    stage: Stage,
}

impl View for Pipeline {
    type V = PipelineState;

    closed spec fn view(&self) -> PipelineState {
        PipelineState {
            inputs: strings_view(self.inputs@),
            bindings: bindings_view(self.bindings@),
            outcomes: outcomes_view(self.outcomes@),
            stage: self.stage@,
        }
    }
}

/// The record of a document that could not be read.
fn unread_outcome(identifier: &str) -> (outcome: Outcome)
    ensures
        outcome@ == unread(identifier@),
{
    Outcome {
        identifier: identifier.to_owned(),
        status: FileStatus::ReadError,
        metadata_found: false,
        resolved_metadata: MetadataMapping::new(),
    }
}

/// The record of a prepared document whose processing ended with `status`.
fn conclude(doc: Document, status: FileStatus) -> (outcome: Outcome)
    ensures
        outcome@ == concluded(doc@, status),
{
    Outcome {
        identifier: doc.identifier,
        status,
        metadata_found: doc.metadata_found,
        resolved_metadata: doc.resolved_metadata,
    }
}

impl Pipeline {
    #[verifier::type_invariant]
    spec fn is_valid(&self) -> bool {
        self@.valid()
    }

    /// A pipeline over `inputs`, in this order, with the field bindings of
    /// the run.
    pub fn new(inputs: Vec<String>, bindings: Vec<FieldBinding>) -> (pipeline: Self)
        ensures
            pipeline@ == PipelineState::initial(strings_view(inputs@), bindings_view(bindings@)),
    {
        let pipeline = Pipeline { inputs, bindings, outcomes: Vec::new(), stage: Stage::Reading };
        assert(pipeline@.outcomes =~= Seq::empty());
        pipeline
    }

    /// Whether every input has its outcome record.
    pub fn is_finished(&self) -> (finished: bool)
        ensures
            finished == self@.finished(),
            self@.valid(),
    {
        proof {
            use_type_invariant(self);
        }
        self.outcomes.len() >= self.inputs.len()
    }

    /// The outcome records made so far, in input order.
    pub fn outcomes(&self) -> (outcomes: &Vec<Outcome>)
        ensures
            outcomes_view(outcomes@) == self@.outcomes,
            self@.valid(),
    {
        proof {
            use_type_invariant(self);
        }
        &self.outcomes
    }

    /// Ends the run and hands out the outcome records, in input order.
    pub fn into_outcomes(self) -> (outcomes: Vec<Outcome>)
        ensures
            outcomes_view(outcomes@) == self@.outcomes,
            self@.valid(),
    {
        proof {
            use_type_invariant(&self);
        }
        let Pipeline { inputs: _, bindings: _, outcomes, stage: _ } = self;
        outcomes
    }

    /// What the caller is to do next.
    pub fn next_action(&self) -> (action: Action<'_>)
        ensures
            action@ == self@.action(),
            self@.valid(),
    {
        proof {
            use_type_invariant(self);
        }
        if self.outcomes.len() >= self.inputs.len() {
            Action::Finished
        } else {
            match &self.stage {
                Stage::Reading => Action::Read(self.inputs[self.outcomes.len()].as_str()),
                Stage::Rendering(doc) => Action::Render {
                    html: doc.html.as_str(),
                    payload: doc.payload.as_str(),
                },
                Stage::Writing(doc, pdf) => Action::Write {
                    output_name: doc.output_name.as_str(),
                    pdf,
                },
            }
        }
    }

    /// Takes the report on the last action and moves on.
    ///
    /// A failure is recorded for the document in process and the next
    /// document is taken up. An event that does not answer the pending
    /// action is ignored.
    pub fn advance(&mut self, event: Event)
        ensures
            final(self)@ == old(self)@.step(event@),
            final(self)@.valid(),
    {
        proof {
            use_type_invariant(&*self);
            law_step_keeps_valid(self@, event@);
        }
        let ghost before = self@;
        let mut taken = Pipeline {
            inputs: Vec::new(),
            bindings: Vec::new(),
            outcomes: Vec::new(),
            stage: Stage::Reading,
        };
        core::mem::swap(self, &mut taken);
        let Pipeline { inputs, bindings, mut outcomes, stage } = taken;
        let stage = if outcomes.len() >= inputs.len() {
            stage
        } else {
            let current = inputs[outcomes.len()].as_str();
            match (stage, event) {
                (Stage::Reading, Event::ReadDone(None)) => {
                    let outcome = unread_outcome(current);
                    outcomes.push(outcome);
                    Stage::Reading
                },
                (Stage::Reading, Event::ReadDone(Some(lines))) => {
                    Stage::Rendering(prepare_document(current, &lines, &bindings))
                },
                (Stage::Rendering(doc), Event::RenderDone(None)) => {
                    let outcome = conclude(doc, FileStatus::RenderError);
                    outcomes.push(outcome);
                    Stage::Reading
                },
                (Stage::Rendering(doc), Event::RenderDone(Some(pdf))) => Stage::Writing(doc, pdf),
                (Stage::Writing(doc, _), Event::WriteDone(written)) => {
                    let status = if written {
                        FileStatus::Success
                    } else {
                        FileStatus::WriteError
                    };
                    let outcome = conclude(doc, status);
                    outcomes.push(outcome);
                    Stage::Reading
                },
                (stage, _) => stage,
            }
        };
        assert(outcomes_view(outcomes@) =~= before.step(event@).outcomes);
        *self = Pipeline { inputs, bindings, outcomes, stage };
    }
}

/// A step keeps the state valid.
pub proof fn law_step_keeps_valid(state: PipelineState, event: EventModel)
    requires
        state.valid(),
    ensures
        state.step(event).valid(),
{
}

/// A step never touches a record that was made: it leaves the records as
/// they are or adds one, for the document in process, and it never changes
/// the batch or the bindings.
pub proof fn law_step_keeps_records(state: PipelineState, event: EventModel)
    ensures
        state.step(event).inputs == state.inputs,
        state.step(event).bindings == state.bindings,
        state.step(event).outcomes == state.outcomes || (state.step(event).outcomes.len()
            == state.outcomes.len() + 1 && state.step(event).outcomes.drop_last()
            == state.outcomes),
{
}

/// The event that answers an action.
pub open spec fn answers(event: EventModel, action: ActionModel) -> bool {
    match (action, event) {
        (ActionModel::Read(_), EventModel::ReadDone(_)) => true,
        (ActionModel::Render { .. }, EventModel::RenderDone(_)) => true,
        (ActionModel::Write { .. }, EventModel::WriteDone(_)) => true,
        _ => false,
    }
}

/// The number of events that a run may still take: three for each document
/// without a record, less what the document in process has behind it.
pub open spec fn steps_left(state: PipelineState) -> int {
    3 * (state.inputs.len() - state.outcomes.len()) - match state.stage {
        StageModel::Reading => 0int,
        StageModel::Rendering(_) => 1int,
        StageModel::Writing(_, _) => 2int,
    }
}

/// Every event that answers the pending action brings the run closer to its
/// end, whatever it reports: no failure stalls the batch.
pub proof fn law_answer_makes_progress(state: PipelineState, event: EventModel)
    requires
        state.valid(),
        answers(event, state.action()),
    ensures
        0 <= steps_left(state.step(event)) < steps_left(state),
        steps_left(state.step(event)) == 0 <==> state.step(event).finished(),
{
}

/// What the reader, the renderer and the writer report for one document.
/// `pdf` counts only where the document was read, `written` only where it
/// was rendered.
pub struct StageResults {
    pub lines: Option<Seq<Seq<char>>>,
    pub pdf: Option<Seq<u8>>,
    pub written: bool,
}

/// How the processing of a document ends, given what the stages report.
pub open spec fn status_of(results: StageResults) -> FileStatus {
    if results.lines is None {
        FileStatus::ReadError
    } else if results.pdf is None {
        FileStatus::RenderError
    } else if !results.written {
        FileStatus::WriteError
    } else {
        FileStatus::Success
    }
}

/// The record of a document, given what the stages report for it.
pub open spec fn file_outcome(
    identifier: Seq<char>,
    bindings: Seq<(Seq<char>, Seq<char>)>,
    results: StageResults,
) -> OutcomeModel {
    match results.lines {
        None => unread(identifier),
        Some(lines) => concluded(document_of(identifier, lines, bindings), status_of(results)),
    }
}

/// The state after the document in process met `results`: the events of
/// its stages, in order. A stage that is not reached finds no pending
/// action and is ignored.
pub open spec fn after_file(state: PipelineState, results: StageResults) -> PipelineState {
    state.step(EventModel::ReadDone(results.lines)).step(EventModel::RenderDone(results.pdf)).step(
        EventModel::WriteDone(results.written),
    )
}

/// The state after the documents have met `results`, one after the other.
pub open spec fn after_batch(state: PipelineState, results: Seq<StageResults>) -> PipelineState
    decreases results.len(),
{
    if results.len() == 0 {
        state
    } else {
        after_file(after_batch(state, results.drop_last()), results.last())
    }
}

/// Processing one document adds its record and leaves the pipeline ready
/// for the next.
pub proof fn lemma_after_file(state: PipelineState, results: StageResults)
    requires
        state.valid(),
        state.stage is Reading,
        !state.finished(),
    ensures
        after_file(state, results) == state.record(
            file_outcome(state.current(), state.bindings, results),
        ),
{
}

/// After the first `n` documents the pipeline holds their `n` records.
proof fn lemma_process_prefix(
    inputs: Seq<Seq<char>>,
    bindings: Seq<(Seq<char>, Seq<char>)>,
    results: Seq<StageResults>,
    n: int,
)
    requires
        0 <= n <= results.len() <= inputs.len(),
    ensures
        after_batch(PipelineState::initial(inputs, bindings), results.take(n)) == (PipelineState {
            inputs,
            bindings,
            outcomes: Seq::new(n as nat, |i: int| file_outcome(inputs[i], bindings, results[i])),
            stage: StageModel::Reading,
        }),
    decreases n,
{
    let start = PipelineState::initial(inputs, bindings);
    let target = PipelineState {
        inputs,
        bindings,
        outcomes: Seq::new(n as nat, |i: int| file_outcome(inputs[i], bindings, results[i])),
        stage: StageModel::Reading,
    };
    if n == 0 {
        assert(target.outcomes =~= start.outcomes);
    } else {
        lemma_process_prefix(inputs, bindings, results, n - 1);
        let before = after_batch(start, results.take(n - 1));
        assert(results.take(n).drop_last() =~= results.take(n - 1));
        lemma_after_file(before, results[n - 1]);
        let after = before.record(file_outcome(before.current(), bindings, results[n - 1]));
        assert(after.outcomes =~= target.outcomes);
    }
}

/// A batch of N documents ends with N records, in input order, whatever the
/// stages report; the record of each document depends on what was reported
/// for that document alone.
pub proof fn law_every_input_gets_its_record(
    inputs: Seq<Seq<char>>,
    bindings: Seq<(Seq<char>, Seq<char>)>,
    results: Seq<StageResults>,
)
    requires
        results.len() == inputs.len(),
    ensures
        after_batch(PipelineState::initial(inputs, bindings), results).finished(),
        after_batch(PipelineState::initial(inputs, bindings), results).outcomes.len()
            == inputs.len(),
        forall|i: int|
            0 <= i < inputs.len() ==> #[trigger] after_batch(
                PipelineState::initial(inputs, bindings),
                results,
            ).outcomes[i] == file_outcome(inputs[i], bindings, results[i]),
{
    lemma_process_prefix(inputs, bindings, results, results.len() as int);
    assert(results.take(results.len() as int) =~= results);
}

/// A document with no delimiter line or only one is no failure: its HTML is
/// that of an empty Markdown segment, and where it is rendered and written
/// its record says success.
pub proof fn law_incomplete_front_matter_is_no_failure(
    identifier: Seq<char>,
    bindings: Seq<(Seq<char>, Seq<char>)>,
    lines: Seq<Seq<char>>,
    pdf: Seq<u8>,
)
    requires
        delimiter_count(lines) <= 1,
    ensures
        document_of(identifier, lines, bindings).html == markdown_html(Seq::empty()),
        file_outcome(
            identifier,
            bindings,
            StageResults { lines: Some(lines), pdf: Some(pdf), written: true },
        ).status == FileStatus::Success,
{
    law_fewer_than_two_delimiters(lines);
}

/// Where document `k` of N fails at the render stage, all N documents still
/// get their records, document `k` is marked with a render error, and the
/// records of the others are what they would be had `k` met anything else.
/// Where no other document fails at that stage, `k` alone is so marked.
pub proof fn law_render_failure_is_local(
    inputs: Seq<Seq<char>>,
    bindings: Seq<(Seq<char>, Seq<char>)>,
    results: Seq<StageResults>,
    k: int,
    instead: StageResults,
)
    requires
        results.len() == inputs.len(),
        0 <= k < inputs.len(),
        results[k].lines is Some,
        results[k].pdf is None,
    ensures
        after_batch(PipelineState::initial(inputs, bindings), results).outcomes.len()
            == inputs.len(),
        after_batch(PipelineState::initial(inputs, bindings), results).outcomes[k].status
            == FileStatus::RenderError,
        forall|i: int|
            0 <= i < inputs.len() && i != k ==> #[trigger] after_batch(
                PipelineState::initial(inputs, bindings),
                results,
            ).outcomes[i] == after_batch(
                PipelineState::initial(inputs, bindings),
                results.update(k, instead),
            ).outcomes[i],
        (forall|i: int|
            0 <= i < inputs.len() && i != k ==> !((#[trigger] results[i]).lines is Some
                && results[i].pdf is None)) ==> (forall|i: int|
            0 <= i < inputs.len() ==> ((#[trigger] after_batch(
                PipelineState::initial(inputs, bindings),
                results,
            ).outcomes[i]).status == FileStatus::RenderError <==> i == k)),
{
    law_every_input_gets_its_record(inputs, bindings, results);
    law_every_input_gets_its_record(inputs, bindings, results.update(k, instead));
}

/// The lines that a reader reported, as a model.
pub open spec fn lines_reported(lines: Option<Vec<String>>) -> Option<Seq<Seq<char>>> {
    match lines {
        Some(lines) => Some(strings_view(lines@)),
        None => None,
    }
}

/// `lines` is what `read` may report for the document `identifier`.
pub open spec fn read_gives<R: Fn(&str) -> Option<Vec<String>>>(
    read: R,
    identifier: Seq<char>,
    lines: Option<Seq<Seq<char>>>,
) -> bool {
    exists|asked: &str, reported: Option<Vec<String>>|
        asked@ == identifier && lines_reported(reported) == lines && #[trigger] call_ensures(
            read,
            (asked,),
            reported,
        )
}

/// `results` is what the three capabilities may report for the document
/// `identifier`, each stage asked with what the stage before it gave.
pub open spec fn reported_by<
    R: Fn(&str) -> Option<Vec<String>>,
    P: Fn(&str, &str) -> Option<Vec<u8>>,
    W: Fn(&str, &Vec<u8>) -> bool,
>(
    read: R,
    render: P,
    write: W,
    identifier: Seq<char>,
    bindings: Seq<(Seq<char>, Seq<char>)>,
    results: StageResults,
) -> bool {
    &&& read_gives(read, identifier, results.lines)
    &&& results.lines matches Some(lines) ==> {
        let doc = document_of(identifier, lines, bindings);
        &&& render_gives(render, doc.html, doc.payload, results.pdf)
        &&& results.pdf matches Some(pdf) ==> write_gives(
            write,
            doc.output_name,
            pdf,
            results.written,
        )
    }
}

/// `outcomes` are the records of the batch `inputs` where the capabilities
/// reported `results`: one record for each input, in input order, each made
/// of what was reported for its own document.
pub open spec fn records_of<
    R: Fn(&str) -> Option<Vec<String>>,
    P: Fn(&str, &str) -> Option<Vec<u8>>,
    W: Fn(&str, &Vec<u8>) -> bool,
>(
    read: R,
    render: P,
    write: W,
    inputs: Seq<Seq<char>>,
    bindings: Seq<(Seq<char>, Seq<char>)>,
    outcomes: Seq<OutcomeModel>,
    results: Seq<StageResults>,
) -> bool {
    &&& outcomes.len() == inputs.len()
    &&& results.len() == inputs.len()
    &&& forall|i: int|
        0 <= i < inputs.len() ==> {
            &&& outcomes[i] == file_outcome(inputs[i], bindings, #[trigger] results[i])
            &&& reported_by(read, render, write, inputs[i], bindings, results[i])
        }
}

/// The identifiers of a batch as sequences of characters.
pub open spec fn identifiers_view(files: Seq<&str>) -> Seq<Seq<char>> {
    Seq::new(files.len(), |i: int| files[i]@)
}

/// Processes a batch of documents with the given reader, renderer and
/// writer, and returns one outcome record for each input, in input order.
///
/// `read` gives the lines of a document or `None`, `render` takes the HTML
/// and the data URI that holds it and gives the PDF or `None`, `write` takes
/// the name of the artifact and the PDF and says whether it was written. A
/// failure at any stage is recorded for its document and the batch goes on.
pub fn read_file_data<R, P, W>(
    files: Vec<&str>,
    bindings: Vec<FieldBinding>,
    read: R,
    render: P,
    write: W,
) -> (outcomes: Vec<Outcome>) where
    R: Fn(&str) -> Option<Vec<String>>,
    P: Fn(&str, &str) -> Option<Vec<u8>>,
    W: Fn(&str, &Vec<u8>) -> bool,

    requires
        forall|identifier: &str| call_requires(read, (identifier,)),
        forall|html: &str, payload: &str| call_requires(render, (html, payload)),
        forall|name: &str, pdf: &Vec<u8>| call_requires(write, (name, pdf)),
    ensures
        outcomes@.len() == files@.len(),
        exists|results: Seq<StageResults>| #[trigger]
            records_of(
                read,
                render,
                write,
                identifiers_view(files@),
                bindings_view(bindings@),
                outcomes_view(outcomes@),
                results,
            ),
{
    let ghost ids = identifiers_view(files@);
    let ghost binds = bindings_view(bindings@);
    let mut inputs: Vec<String> = Vec::new();
    let mut next: usize = 0;
    while next < files.len()
        invariant
            next <= files.len(),
            inputs@.len() == next,
            forall|i: int| 0 <= i < next ==> (#[trigger] inputs@[i])@ == files@[i]@,
        decreases files.len() - next,
    {
        inputs.push(files[next].to_owned());
        next = next + 1;
    }
    let ghost mut done: Seq<StageResults> = Seq::empty();
    let ghost mut lines_now: Option<Seq<Seq<char>>> = None;
    let ghost mut pdf_now: Option<Seq<u8>> = None;
    let mut pipeline = Pipeline::new(inputs, bindings);
    loop
        invariant
            forall|identifier: &str| call_requires(read, (identifier,)),
            forall|html: &str, payload: &str| call_requires(render, (html, payload)),
            forall|name: &str, pdf: &Vec<u8>| call_requires(write, (name, pdf)),
            pipeline@.valid(),
            pipeline@.inputs == ids,
            pipeline@.bindings == binds,
            done.len() == pipeline@.outcomes.len(),
            forall|i: int|
                0 <= i < done.len() ==> {
                    &&& pipeline@.outcomes[i] == file_outcome(ids[i], binds, #[trigger] done[i])
                    &&& reported_by(read, render, write, ids[i], binds, done[i])
                },
            match pipeline@.stage {
                StageModel::Reading => true,
                StageModel::Rendering(doc) => {
                    &&& lines_now matches Some(lines)
                    &&& doc == document_of(pipeline@.current(), lines, binds)
                    &&& read_gives(read, pipeline@.current(), lines_now)
                },
                StageModel::Writing(doc, pdf) => {
                    &&& lines_now matches Some(lines)
                    &&& doc == document_of(pipeline@.current(), lines, binds)
                    &&& read_gives(read, pipeline@.current(), lines_now)
                    &&& pdf_now == Some(pdf)
                    &&& render_gives(render, doc.html, doc.payload, pdf_now)
                },
            },
        ensures
            pipeline@.finished(),
        decreases steps_left(pipeline@),
    {
        let ghost before = pipeline@;
        let event = match pipeline.next_action() {
            Action::Read(identifier) => {
                let lines = read(identifier);
                proof {
                    lines_now = lines_reported(lines);
                }
                Event::ReadDone(lines)
            },
            Action::Render { html, payload } => {
                let pdf = render(html, payload);
                proof {
                    pdf_now = pdf_reported(pdf);
                }
                Event::RenderDone(pdf)
            },
            Action::Write { output_name, pdf } => Event::WriteDone(write(output_name, pdf)),
            Action::Finished => {
                break ;
            },
        };
        proof {
            law_answer_makes_progress(before, event@);
            law_step_keeps_records(before, event@);
            let after = before.step(event@);
            if after.outcomes.len() > before.outcomes.len() {
                // A record is added: note what the stages of its document
                // reported.
                let written = match event@ {
                    EventModel::WriteDone(written) => written,
                    _ => false,
                };
                let results = match before.stage {
                    StageModel::Reading => StageResults { lines: None, pdf: None, written },
                    StageModel::Rendering(_) => StageResults {
                        lines: lines_now,
                        pdf: None,
                        written,
                    },
                    StageModel::Writing(_, _) => StageResults {
                        lines: lines_now,
                        pdf: pdf_now,
                        written,
                    },
                };
                done = done.push(results);
            }
        }
        pipeline.advance(event);
    }
    let outcomes = pipeline.into_outcomes();
    assert(records_of(read, render, write, ids, binds, outcomes_view(outcomes@), done));
    outcomes
}

} // verus!
