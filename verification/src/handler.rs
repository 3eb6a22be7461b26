//! The reader's front: what it is configured with, and the decisions it
//! takes between the moments at which a request waits for the outside
//! world (a permit of the limiter, a worker's answer).

use crate::builder::{is_parse, parse_query};
use crate::error::Error;
use crate::payload::{choose_source, chosen_source, QueryPayload, QuerySource};
use crate::query::{DocAddress, Query, QueryMode, SearchField};
use crate::results::{
    choose_ranking, collect_hits, hit_views, labelled_all, match_views, ranking_for, Elapsed,
    HitView, NamedDocument, QueryResults, Ranking, Ratio,
};
use crate::schema::{id_field, id_field_name, Schema};
use crate::stop_words::StopWords;
use vstd::prelude::*;
use vstd::string::StringExecFns;

verus! {

/// The sizes of the resources that a reader is run with.
#[derive(Debug, Clone, Copy, PartialEq, Eq, Structural)]
pub struct PoolPlan {
    /// The permits of the limiter.
    pub permits: usize,
    /// The threads of the dispatch pool.
    pub workers: usize,
    /// The execution contexts of the executor pool.
    pub executors: usize,
    /// The threads of each execution context.
    pub threads_per_executor: usize,
    /// Whether an execution context runs on threads of its own.
    pub multi_threaded: bool,
}

/// The term lookup that finds a document by its identifier.
#[derive(Debug, Clone, Copy, PartialEq, Eq, Structural)]
pub struct Lookup {
    /// The identifier field.
    pub field: u32,
    /// The identifier sought.
    pub id: u64,
}

/// A search request after admission: what is left to resolve and build.
#[derive(Debug, PartialEq, Eq)]
pub struct SearchJob {
    pub reference: Option<Lookup>,
    pub order_by: Option<u32>,
    pub source: Option<QuerySource>,
    pub mode: QueryMode,
    pub use_fast_fuzzy: bool,
    pub strip_stop_words: bool,
    pub limit: usize,
    pub offset: usize,
}

/// A query with the way to run it.
#[derive(Debug, PartialEq, Eq)]
pub struct SearchPlan {
    pub query: Query,
    pub ranking: Ranking,
    pub limit: usize,
    pub offset: usize,
}

/// What is left to decide of a search once its query tree is built.
#[derive(Debug, Clone, Copy, PartialEq, Eq, Structural)]
pub struct Pending {
    /// The field to order the hits by, if any.
    pub order_by: Option<u32>,
    /// How many hits to return at most.
    pub limit: usize,
    /// How many of the best hits to pass over.
    pub offset: usize,
}

/// What a caller may ask of the reader.
#[derive(Debug, PartialEq, Eq)]
pub enum Request {
    /// The document with an identifier.
    Get(u64),
    /// A search.
    Search(QueryPayload),
    /// An orderly end: no request in flight survives it.
    Shutdown,
}

/// Where a request stands.
#[derive(Debug, PartialEq, Eq)]
pub enum State {
    /// It waits for the limiter.
    Queued(Request),
    /// A get: the document is being looked up by its identifier.
    Locating,
    /// A get: the located document is being fetched.
    Fetching,
    /// A search: its reference document is being looked up.
    Resolving(SearchJob),
    /// A search: the engine's query is being made of the query tree.
    Compiling(Pending),
    /// A search: the engine runs the plan.
    Running,
    /// It has been answered.
    Done,
}

/// What the outside world reports back to a request.
#[derive(Debug, PartialEq, Eq)]
pub enum Event {
    /// The limiter has granted the permits asked for.
    Admitted,
    /// The limiter is closed.
    Refused,
    /// A lookup by identifier has finished with these matches.
    Located(Vec<DocAddress>),
    /// A document has been fetched.
    Fetched(NamedDocument),
    /// The engine's query has been made of a query tree, which comes back
    /// as it was handed out: every text in it that was meant for the
    /// index's parser has been accepted.
    Compiled(Query),
    /// The index's parser has turned down a text of the query tree.
    Malformed,
    /// The engine has run a plan: the matches in rank order with their
    /// documents, the number of all matching documents, and the time that
    /// has passed since the request was handed to a worker.
    Matched { matches: Vec<(Ratio, NamedDocument)>, count: usize, elapsed: Elapsed },
    /// The worker went away without an answer.
    Lost,
}

/// What a request asks of the outside world next.
#[derive(Debug, PartialEq, Eq)]
pub enum Action {
    /// Wait for this many permits of the limiter.
    Acquire { permits: usize },
    /// On a worker, look up the document with an identifier; one match is
    /// enough.
    LookUp(Lookup),
    /// On the same worker, fetch the document at an address.
    Fetch(DocAddress),
    /// On the same worker, make the engine's query of a query tree; this is
    /// where the index's parser reads the texts that are meant for it.
    Compile(Query),
    /// On the same worker, run a plan and fetch the documents it matches.
    Run(SearchPlan),
    /// Close the limiter, then tear down the executor pool.
    ShutDown,
    /// Hand the document to the caller and give back the permit.
    ReplyDocument(NamedDocument),
    /// Hand the results to the caller and give back the permit.
    ReplyResults(QueryResults),
    /// Hand the error to the caller and give back any permit.
    Fail(Error),
}

/// Whether a request in this state holds a permit of the limiter.
pub open spec fn holds_permit(state: State) -> bool {
    state is Locating || state is Fetching || state is Resolving || state is Compiling
        || state is Running
}

/// Whether an action hands work to a worker.
pub open spec fn is_work(action: Action) -> bool {
    action is LookUp || action is Fetch || action is Compile || action is Run
}

/// The settings of a reader.
#[derive(Debug, PartialEq, Eq)]
pub struct IndexReaderHandler {
    /// The name of the index the handler belongs to.
    pub name: String,
    /// The maximum concurrency of searches at one time.
    pub max_concurrency: usize,
    /// The threads of each execution context.
    pub reader_threads: usize,
    /// The fields to search in a query, with their boosts.
    pub search_fields: Vec<SearchField>,
    /// The schema of the index.
    pub schema: Schema,
    /// Whether fuzzy queries go by corrected text.
    pub use_fast_fuzzy: bool,
    /// Whether stop words are taken out of corrected queries.
    pub strip_stop_words: bool,
}

impl IndexReaderHandler {
    /// The schema's field ids fit in 32 bits.
    pub open spec fn wf(&self) -> bool {
        self.schema.wf()
    }

    /// The search job that an admitted request is turned into. Without the
    /// identifier field in the schema there is none, whether or not the
    /// request names a reference document. An ordering field that the schema
    /// does not know is passed over.
    pub open spec fn prepared(&self, payload: QueryPayload, correction_enabled: bool) -> Result<
        SearchJob,
        Error,
    > {
        match self.schema.field_id(id_field_name()) {
            None => Err(Error::MissingIdField),
            Some(field) => Ok(
                SearchJob {
                    reference: match payload.document {
                        Some(id) => Some(Lookup { field, id }),
                        None => None,
                    },
                    order_by: match payload.order_by {
                        Some(name) => self.schema.field_id(name@),
                        None => None,
                    },
                    source: chosen_source(payload.query, payload.map),
                    mode: payload.mode,
                    use_fast_fuzzy: self.use_fast_fuzzy && correction_enabled,
                    strip_stop_words: self.strip_stop_words,
                    limit: payload.limit,
                    offset: payload.offset,
                },
            ),
        }
    }

    /// The name of the dispatch pool's thread number `n`: the index's name
    /// and the thread's number as a decimal numeral.
    pub open spec fn worker_name_text(&self, n: usize) -> Seq<char> {
        "index-"@ + self.name@ + "-worker-"@ + crate::text::decimal(n as nat)
    }

    /// The sizes of the pools of this reader.
    pub open spec fn pools(&self) -> PoolPlan {
        PoolPlan {
            permits: self.max_concurrency,
            workers: self.max_concurrency,
            executors: self.max_concurrency,
            threads_per_executor: self.reader_threads,
            multi_threaded: self.reader_threads > 1,
        }
    }

    /// The settings of a reader.
    pub fn create(
        index_name: String,
        max_concurrency: usize,
        reader_threads: usize,
        search_fields: Vec<SearchField>,
        schema_copy: Schema,
        use_fast_fuzzy: bool,
        strip_stop_words: bool,
    ) -> (handler: Self)
        ensures
            handler.name == index_name,
            handler.max_concurrency == max_concurrency,
            handler.reader_threads == reader_threads,
            handler.search_fields == search_fields,
            handler.schema == schema_copy,
            handler.use_fast_fuzzy == use_fast_fuzzy,
            handler.strip_stop_words == strip_stop_words,
    {
        IndexReaderHandler {
            name: index_name,
            max_concurrency,
            reader_threads,
            search_fields,
            schema: schema_copy,
            use_fast_fuzzy,
            strip_stop_words,
        }
    }

    /// The name of the dispatch pool's thread number `n`.
    pub fn worker_name(&self, n: usize) -> (name: String)
        ensures
            name@ == self.worker_name_text(n),
    {
        let mut name = String::new();
        name.append("index-");
        name.append(self.name.as_str());
        name.append("-worker-");
        crate::text::push_decimal(&mut name, n as u64);
        name
    }

    /// The sizes of the pools: as many permits, workers and execution
    /// contexts as requests may run at once, and an execution context with
    /// threads of its own only where it is given more than one.
    pub fn pool_plan(&self) -> (plan: PoolPlan)
        ensures
            plan == self.pools(),
    {
        PoolPlan {
            permits: self.max_concurrency,
            workers: self.max_concurrency,
            executors: self.max_concurrency,
            threads_per_executor: self.reader_threads,
            multi_threaded: self.reader_threads > 1,
        }
    }

    /// Whether a search may come to read the stop words, so that they have
    /// to be at hand when it is let in.
    pub fn reads_stop_words(&self, payload: &QueryPayload, correction_enabled: bool) -> (reads:
        bool)
        ensures
            reads == crate::builder::reads_stop_words(
                payload.mode,
                self.use_fast_fuzzy && correction_enabled,
            ),
    {
        match payload.mode {
            QueryMode::MoreLikeThis => true,
            QueryMode::Fuzzy => self.use_fast_fuzzy && correction_enabled,
            QueryMode::Normal => false,
        }
    }

    /// Turns an admitted request into a search job.
    pub fn prepare_search(&self, payload: QueryPayload, correction_enabled: bool) -> (job: Result<
        SearchJob,
        Error,
    >)
        requires
            self.wf(),
        ensures
            job == self.prepared(payload, correction_enabled),
    {
        let name = id_field();
        let field = match self.schema.get_field(&name) {
            Some(field) => field,
            None => {
                return Err(Error::MissingIdField);
            },
        };
        let reference = match payload.document {
            Some(id) => Some(Lookup { field, id }),
            None => None,
        };
        let order_by = match &payload.order_by {
            Some(name) => self.schema.get_field(name),
            None => None,
        };
        Ok(
            SearchJob {
                reference,
                order_by,
                source: choose_source(payload.query, payload.map),
                mode: payload.mode,
                use_fast_fuzzy: self.use_fast_fuzzy && correction_enabled,
                strip_stop_words: self.strip_stop_words,
                limit: payload.limit,
                offset: payload.offset,
            },
        )
    }
}

/// What becomes of a search job once its reference document is settled:
/// the query tree is built. Where that fails the request ends; otherwise
/// the tree goes out to be made into the engine's query, and the ranking
/// waits until that is done.
pub open spec fn is_plan<C: Fn(&String, usize) -> String>(
    handler: IndexReaderHandler,
    job: SearchJob,
    ref_document: Option<DocAddress>,
    next: State,
    action: Action,
    stop_words: Option<&StopWords>,
    correct: C,
) -> bool {
    exists|built: Result<Query, Error>|
        #[trigger] is_parse(
            built,
            handler.schema,
            handler.search_fields@,
            job.source,
            ref_document,
            job.mode,
            job.use_fast_fuzzy,
            job.strip_stop_words,
            stop_words,
            correct,
        ) && match built {
            Err(e) => next is Done && action == Action::Fail(e),
            Ok(query) => next == State::Compiling(
                Pending { order_by: job.order_by, limit: job.limit, offset: job.offset },
            ) && action == Action::Compile(query),
        }
}

/// What becomes of a search once the engine's query is made: the ranking
/// is chosen, and the plan goes to the engine unless the field to order by
/// cannot rank the hits.
pub open spec fn is_ranked(
    handler: IndexReaderHandler,
    pending: Pending,
    query: Query,
    next: State,
    action: Action,
) -> bool {
    match ranking_for(handler.schema, pending.order_by) {
        Err(e) => fails_with(next, action, e),
        Ok(ranking) => next is Running && action == Action::Run(
            SearchPlan { query, ranking, limit: pending.limit, offset: pending.offset },
        ),
    }
}

/// The request ends with an error.
pub open spec fn fails_with(next: State, action: Action, error: Error) -> bool {
    next is Done && action == Action::Fail(error)
}

/// How a request moves on when the outside world reports back.
///
/// A refusal by the limiter ends a waiting request with `ShuttingDown`. Once
/// admitted, a get looks its document up by identifier and fetches the first
/// match; a search is prepared, has its reference document looked up if it
/// names one, and has its query tree built; the tree is made into the
/// engine's query, where a text that the index's parser turns down ends the
/// request with `MalformedQuery`, and only then is the ranking chosen; a
/// shutdown closes the limiter and tears the executors down. A lookup without a match ends the request with
/// `NoSuchDocument`. The matches of a search are labelled, and the results
/// carry the time that was measured outside. A worker that went away, and
/// any report that the state does not wait for, ends the request with
/// `WorkerLost`.
pub open spec fn is_step<C: Fn(&String, usize) -> String>(
    handler: IndexReaderHandler,
    state: State,
    event: Event,
    next: State,
    action: Action,
    correction_enabled: bool,
    stop_words: Option<&StopWords>,
    correct: C,
) -> bool {
    match event {
        Event::Lost => fails_with(next, action, Error::WorkerLost),
        Event::Refused => if state is Queued {
            fails_with(next, action, Error::ShuttingDown)
        } else {
            fails_with(next, action, Error::WorkerLost)
        },
        Event::Admitted => match state {
            State::Queued(Request::Get(id)) => match handler.schema.field_id(id_field_name()) {
                None => fails_with(next, action, Error::MissingIdField),
                Some(field) => next is Locating && action == Action::LookUp(Lookup { field, id }),
            },
            State::Queued(Request::Search(payload)) => match handler.prepared(
                payload,
                correction_enabled,
            ) {
                Err(e) => fails_with(next, action, e),
                Ok(job) => match job.reference {
                    Some(lookup) => next == State::Resolving(job) && action == Action::LookUp(
                        lookup,
                    ),
                    None => is_plan(handler, job, None, next, action, stop_words, correct),
                },
            },
            State::Queued(Request::Shutdown) => next is Done && action == Action::ShutDown,
            _ => fails_with(next, action, Error::WorkerLost),
        },
        Event::Located(found) => match state {
            State::Locating => if found@.len() == 0 {
                fails_with(next, action, Error::NoSuchDocument)
            } else {
                next is Fetching && action == Action::Fetch(found@[0])
            },
            State::Resolving(job) => if found@.len() == 0 {
                fails_with(next, action, Error::NoSuchDocument)
            } else {
                is_plan(handler, job, Some(found@[0]), next, action, stop_words, correct)
            },
            _ => fails_with(next, action, Error::WorkerLost),
        },
        Event::Fetched(doc) => match state {
            State::Fetching => next is Done && action == Action::ReplyDocument(doc),
            _ => fails_with(next, action, Error::WorkerLost),
        },
        Event::Compiled(query) => match state {
            State::Compiling(pending) => is_ranked(handler, pending, query, next, action),
            _ => fails_with(next, action, Error::WorkerLost),
        },
        Event::Malformed => match state {
            State::Compiling(_) => fails_with(next, action, Error::MalformedQuery),
            _ => fails_with(next, action, Error::WorkerLost),
        },
        Event::Matched { matches, count, elapsed } => match state {
            State::Running => match labelled_all(match_views(matches@)) {
                Err(e) => fails_with(next, action, e),
                Ok(hits) => next is Done && (action matches Action::ReplyResults(r) && hit_views(
                    r.hits@,
                ) == hits && r.count == count && r.time_taken == elapsed),
            },
            _ => fails_with(next, action, Error::WorkerLost),
        },
    }
}

impl IndexReaderHandler {
    /// Takes in a request for the document with an identifier: it waits for
    /// one permit of the limiter.
    pub fn get_doc(&self, doc_address: u64) -> (out: (State, Action))
        ensures
            out.0 == State::Queued(Request::Get(doc_address)),
            out.1 == (Action::Acquire { permits: 1 }),
    {
        (State::Queued(Request::Get(doc_address)), Action::Acquire { permits: 1 })
    }

    /// Takes in a search: it waits for one permit of the limiter.
    pub fn search(&self, payload: QueryPayload) -> (out: (State, Action))
        ensures
            out.0 == State::Queued(Request::Search(payload)),
            out.1 == (Action::Acquire { permits: 1 }),
    {
        (State::Queued(Request::Search(payload)), Action::Acquire { permits: 1 })
    }

    /// Takes in a shutdown: it waits for all the permits of the limiter,
    /// and so for every request in flight.
    pub fn shutdown(&self) -> (out: (State, Action))
        ensures
            out.0 == State::Queued(Request::Shutdown),
            out.1 == (Action::Acquire { permits: self.max_concurrency }),
            self.max_concurrency == self.pools().permits,
    {
        (State::Queued(Request::Shutdown), Action::Acquire { permits: self.max_concurrency })
    }

    fn plan<C: Fn(&String, usize) -> String>(
        &self,
        job: SearchJob,
        ref_document: Option<DocAddress>,
        stop_words: Option<&StopWords>,
        correct: C,
    ) -> (out: (State, Action))
        requires
            self.wf(),
            forall|t: &String| call_requires(correct, (t, 1usize)),
        ensures
            is_plan(*self, job, ref_document, out.0, out.1, stop_words, correct),
    {
        let built = parse_query(
            &self.schema,
            &self.search_fields,
            job.source,
            ref_document,
            job.mode,
            job.use_fast_fuzzy,
            job.strip_stop_words,
            stop_words,
            correct,
        );
        let ghost seen = built;
        let out = match built {
            Err(e) => (State::Done, Action::Fail(e)),
            Ok(query) => (
                State::Compiling(
                    Pending { order_by: job.order_by, limit: job.limit, offset: job.offset },
                ),
                Action::Compile(query),
            ),
        };
        proof {
            assert(is_parse(
                seen,
                self.schema,
                self.search_fields@,
                job.source,
                ref_document,
                job.mode,
                job.use_fast_fuzzy,
                job.strip_stop_words,
                stop_words,
                correct,
            ));
        }
        out
    }

    /// Moves a request on by one report from the outside world.
    pub fn step<C: Fn(&String, usize) -> String>(
        &self,
        state: State,
        event: Event,
        correction_enabled: bool,
        stop_words: Option<&StopWords>,
        correct: C,
    ) -> (out: (State, Action))
        requires
            self.wf(),
            forall|t: &String| call_requires(correct, (t, 1usize)),
            event matches Event::Matched { matches, .. } ==> forall|i: int|
                0 <= i < matches@.len() ==> (#[trigger] matches@[i]).1.wf(),
        ensures
            is_step(*self, state, event, out.0, out.1, correction_enabled, stop_words, correct),
    {
        let lost = (State::Done, Action::Fail(Error::WorkerLost));
        match event {
            Event::Lost => lost,
            Event::Refused => match state {
                State::Queued(_) => (State::Done, Action::Fail(Error::ShuttingDown)),
                _ => lost,
            },
            Event::Admitted => match state {
                State::Queued(Request::Get(id)) => {
                    let name = id_field();
                    match self.schema.get_field(&name) {
                        None => (State::Done, Action::Fail(Error::MissingIdField)),
                        Some(field) => (State::Locating, Action::LookUp(Lookup { field, id })),
                    }
                },
                State::Queued(Request::Search(payload)) => {
                    match self.prepare_search(payload, correction_enabled) {
                        Err(e) => (State::Done, Action::Fail(e)),
                        Ok(job) => match job.reference {
                            Some(lookup) => (State::Resolving(job), Action::LookUp(lookup)),
                            None => self.plan(job, None, stop_words, correct),
                        },
                    }
                },
                State::Queued(Request::Shutdown) => (State::Done, Action::ShutDown),
                _ => lost,
            },
            Event::Located(found) => match state {
                State::Locating => {
                    if found.len() == 0 {
                        (State::Done, Action::Fail(Error::NoSuchDocument))
                    } else {
                        (State::Fetching, Action::Fetch(found[0]))
                    }
                },
                State::Resolving(job) => {
                    if found.len() == 0 {
                        (State::Done, Action::Fail(Error::NoSuchDocument))
                    } else {
                        self.plan(job, Some(found[0]), stop_words, correct)
                    }
                },
                _ => lost,
            },
            Event::Fetched(doc) => match state {
                State::Fetching => (State::Done, Action::ReplyDocument(doc)),
                _ => lost,
            },
            Event::Compiled(query) => match state {
                State::Compiling(pending) => match choose_ranking(&self.schema, pending.order_by) {
                    Err(e) => (State::Done, Action::Fail(e)),
                    Ok(ranking) => (
                        State::Running,
                        Action::Run(
                            SearchPlan {
                                query,
                                ranking,
                                limit: pending.limit,
                                offset: pending.offset,
                            },
                        ),
                    ),
                },
                _ => lost,
            },
            Event::Malformed => match state {
                State::Compiling(_) => (State::Done, Action::Fail(Error::MalformedQuery)),
                _ => lost,
            },
            Event::Matched { matches, count, elapsed } => match state {
                State::Running => match collect_hits(matches, count) {
                    Err(e) => (State::Done, Action::Fail(e)),
                    Ok(results) => (
                        State::Done,
                        Action::ReplyResults(results.with_time_taken(elapsed)),
                    ),
                },
                _ => lost,
            },
        }
    }
}

/// Work reaches a worker only for a request that holds a permit: a step
/// that hands work out leaves the request in a state that holds one, and a
/// request that was still waiting gets there by being admitted and in no
/// other way.
pub proof fn lemma_work_needs_permit<C: Fn(&String, usize) -> String>(
    handler: IndexReaderHandler,
    state: State,
    event: Event,
    next: State,
    action: Action,
    correction_enabled: bool,
    stop_words: Option<&StopWords>,
    correct: C,
)
    requires
        is_step(handler, state, event, next, action, correction_enabled, stop_words, correct),
        is_work(action),
    ensures
        holds_permit(next),
        state is Queued ==> event is Admitted,
{
}

/// A request keeps its permit exactly as long as it has not been answered:
/// after a step it holds one if and only if the step handed out work.
pub proof fn lemma_permit_until_answer<C: Fn(&String, usize) -> String>(
    handler: IndexReaderHandler,
    state: State,
    event: Event,
    next: State,
    action: Action,
    correction_enabled: bool,
    stop_words: Option<&StopWords>,
    correct: C,
)
    requires
        is_step(handler, state, event, next, action, correction_enabled, stop_words, correct),
    ensures
        holds_permit(next) <==> is_work(action),
        !is_work(action) ==> next is Done,
        !(action is Acquire),
{
}

/// A request that finds the limiter closed fails at once with `ShuttingDown`:
/// it asks nothing more of the outside world.
pub proof fn lemma_closed_limiter_fails_at_once<C: Fn(&String, usize) -> String>(
    handler: IndexReaderHandler,
    request: Request,
    next: State,
    action: Action,
    correction_enabled: bool,
    stop_words: Option<&StopWords>,
    correct: C,
)
    requires
        is_step(
            handler,
            State::Queued(request),
            Event::Refused,
            next,
            action,
            correction_enabled,
            stop_words,
            correct,
        ),
    ensures
        next is Done,
        action == Action::Fail(Error::ShuttingDown),
{
}

/// The ranking is chosen only once the engine's query has been made: a
/// plan goes to the engine, and a request fails for the field it is to be
/// ordered by, on no other step than the one that follows the making of the
/// query. So a text that the parser turns down is reported before a field
/// that cannot rank the hits.
pub proof fn lemma_ranking_waits_for_the_query<C: Fn(&String, usize) -> String>(
    handler: IndexReaderHandler,
    state: State,
    event: Event,
    next: State,
    action: Action,
    correction_enabled: bool,
    stop_words: Option<&StopWords>,
    correct: C,
)
    requires
        is_step(handler, state, event, next, action, correction_enabled, stop_words, correct),
        action is Run || action == Action::Fail(Error::NotFastField),
    ensures
        state is Compiling,
        event is Compiled,
{
    if event is Matched && state is Running {
        crate::results::lemma_failure_is_mislabelling(match_views(event->matches@));
    }
}

} // verus!
