//! Navigation requests and the host-driven executor that runs fetches.
use vstd::prelude::*;

verus! {

/// The HTTP method of a navigation or fetch.
#[derive(Clone, Copy, Debug, PartialEq, Eq, Structural)]
pub enum NavigationMethod {
    /// The request is a GET request.
    GET,
    /// The request is a POST request.
    POST,
}

/// How a script asks for its variables to be sent along with a request.
#[derive(Clone, Copy, Debug, PartialEq, Eq, Structural)]
pub enum SendVarsMethod {
    /// Variables are not sent.
    Omit,
    /// Variables are sent in the query string.
    Get,
    /// Variables are sent as form data.
    Post,
}

/// The navigation method named by a method string, if it names one.
pub open spec fn method_of_chars(s: Seq<char>) -> Option<NavigationMethod> {
    if s == seq!['G', 'E', 'T'] {
        Some(NavigationMethod::GET)
    } else if s == seq!['P', 'O', 'S', 'T'] {
        Some(NavigationMethod::POST)
    } else {
        None
    }
}

impl NavigationMethod {
    /// Convert a script's send-variables method into a navigation method.
    pub fn from_send_vars_method(s: SendVarsMethod) -> (r: Option<Self>)
        ensures
            s == SendVarsMethod::Omit ==> r.is_none(),
            s == SendVarsMethod::Get ==> r == Some(NavigationMethod::GET),
            s == SendVarsMethod::Post ==> r == Some(NavigationMethod::POST),
    {
        match s {
            SendVarsMethod::Omit => None,
            SendVarsMethod::Get => Some(NavigationMethod::GET),
            SendVarsMethod::Post => Some(NavigationMethod::POST),
        }
    }

    /// Parse an upper-case method name; anything but `GET` or `POST` gives `None`.
    pub fn from_method_str(method: &str) -> (r: Option<Self>)
        ensures
            r == method_of_chars(method@),
    {
        let n = method.unicode_len();
        if n == 3 && method.get_char(0) == 'G' && method.get_char(1) == 'E' && method.get_char(2)
            == 'T' {
            assert(method@ =~= seq!['G', 'E', 'T']);
            Some(NavigationMethod::GET)
        } else if n == 4 && method.get_char(0) == 'P' && method.get_char(1) == 'O'
            && method.get_char(2) == 'S' && method.get_char(3) == 'T' {
            assert(method@ =~= seq!['P', 'O', 'S', 'T']);
            Some(NavigationMethod::POST)
        } else {
            None
        }
    }
}

/// Options sent along with a fetch.
pub struct RequestOptions {
    /// The HTTP method of the request.
    method: NavigationMethod,
    /// The request body, with its mime type, where the method carries one.
    body: Option<(Vec<u8>, String)>,
}

impl RequestOptions {
    /// The request's method.
    pub closed spec fn spec_method(&self) -> NavigationMethod {
        self.method
    }

    /// The request's body, with its mime type.
    pub closed spec fn spec_body(&self) -> Option<(Vec<u8>, String)> {
        self.body
    }

    /// Options for a GET request, which has no body.
    pub fn get() -> (r: Self)
        ensures
            r.spec_method() == NavigationMethod::GET,
            r.spec_body().is_none(),
    {
        RequestOptions { method: NavigationMethod::GET, body: None }
    }

    /// Options for a POST request with the given body.
    pub fn post(body: Option<(Vec<u8>, String)>) -> (r: Self)
        ensures
            r.spec_method() == NavigationMethod::POST,
            r.spec_body() == body,
    {
        RequestOptions { method: NavigationMethod::POST, body }
    }

    /// The request's method.
    pub fn method(&self) -> (r: NavigationMethod)
        ensures
            r == self.spec_method(),
    {
        self.method
    }

    /// The request's body, if it has one.
    pub fn body(&self) -> (r: &Option<(Vec<u8>, String)>)
        ensures
            *r == self.spec_body(),
    {
        &self.body
    }
}

/// What polling one spawned task reported.
#[derive(Clone, Copy, Debug, PartialEq, Eq, Structural)]
pub enum PollOutcome {
    /// The task has not finished.
    Pending,
    /// The task finished successfully.
    Done,
    /// The task finished with an error.
    Failed,
}

/// The tasks of `q` whose outcome in `o` (position for position) is `Pending`, in order.
pub open spec fn still_pending(q: Seq<u64>, o: Seq<PollOutcome>) -> Seq<u64>
    decreases q.len(),
{
    if q.len() == 0 {
        seq![]
    } else {
        let rest = still_pending(q.drop_last(), o);
        if o[q.len() - 1] == PollOutcome::Pending {
            rest.push(q.last())
        } else {
            rest
        }
    }
}

/// No task before position `k` failed.
pub open spec fn none_failed_before(o: Seq<PollOutcome>, k: int) -> bool {
    forall|j: int| 0 <= j < k ==> o[j] != PollOutcome::Failed
}

/// A blocking executor's bookkeeping: the queue of spawned tasks, by id.
///
/// The host owns the tasks themselves; it polls them in queue order and reports
/// the outcomes, and the executor decides which tasks stay queued.
pub struct NullExecutor {
    /// The outstanding tasks, oldest first.
    futures_queue: Vec<u64>,
}

impl NullExecutor {
    /// The outstanding tasks, oldest first.
    pub closed spec fn queue(&self) -> Seq<u64> {
        self.futures_queue@
    }

    /// An executor with no outstanding tasks.
    pub fn new() -> (r: Self)
        ensures
            r.queue() == Seq::<u64>::empty(),
    {
        NullExecutor { futures_queue: Vec::new() }
    }

    /// The outstanding tasks, oldest first.
    pub fn queued(&self) -> (r: &Vec<u64>)
        ensures
            r@ == self.queue(),
    {
        &self.futures_queue
    }

    /// Move newly spawned tasks to the back of the queue.
    pub fn flush_channel(&mut self, incoming: &Vec<u64>)
        ensures
            final(self).queue() == old(self).queue() + incoming@,
    {
        let mut i: usize = 0;
        while i < incoming.len()
            invariant
                i <= incoming.len(),
                self.queue() == old(self).queue() + incoming@.take(i as int),
            decreases incoming.len() - i,
        {
            self.futures_queue.push(incoming[i]);
            assert(incoming@.take(i + 1) =~= incoming@.take(i as int).push(incoming@[i as int]));
            i += 1;
        }
        assert(incoming@.take(i as int) =~= incoming@);
    }

    /// Take in newly spawned tasks and tell whether any task is outstanding.
    pub fn has_work(&mut self, incoming: &Vec<u64>) -> (r: bool)
        ensures
            final(self).queue() == old(self).queue() + incoming@,
            r == (final(self).queue().len() > 0),
    {
        self.flush_channel(incoming);
        self.futures_queue.len() > 0
    }

    /// Apply one round of polling: `outcomes[i]` is what the task at position `i`
    /// of the queue reported. Finished tasks leave the queue. At the first failure
    /// the round stops with that task's id: the tasks after it were not polled and
    /// stay in front of those that were polled and are still pending.
    pub fn poll_all(&mut self, outcomes: &Vec<PollOutcome>) -> (r: Result<(), u64>)
        requires
            outcomes@.len() == old(self).queue().len(),
        ensures
            r is Ok <==> none_failed_before(outcomes@, outcomes@.len() as int),
            r is Ok ==> final(self).queue() == still_pending(old(self).queue(), outcomes@),
            forall|k: int|
                0 <= k < outcomes@.len() && #[trigger] outcomes@[k] == PollOutcome::Failed
                    && none_failed_before(outcomes@, k) ==> r == Err::<(), u64>(old(self).queue()[k]),
            forall|k: int|
                0 <= k < outcomes@.len() && #[trigger] outcomes@[k] == PollOutcome::Failed
                    && none_failed_before(outcomes@, k) ==> final(self).queue() == old(self).queue().subrange(k + 1, old(self).queue().len() as int)
                    + still_pending(old(self).queue().take(k), outcomes@),
    {
        let ghost q = self.queue();
        let mut unfinished: Vec<u64> = Vec::new();
        let mut i: usize = 0;
        let n = self.futures_queue.len();
        while i < n
            invariant
                n == q.len(),
                q == old(self).queue(),
                outcomes@.len() == n,
                i <= n,
                self.queue() == q,
                none_failed_before(outcomes@, i as int),
                unfinished@ == still_pending(q.take(i as int), outcomes@),
            decreases n - i,
        {
            let id = self.futures_queue[i];
            assert(q.take(i + 1).drop_last() =~= q.take(i as int));
            match outcomes[i] {
                PollOutcome::Failed => {
                    let mut rest: Vec<u64> = Vec::new();
                    let mut j: usize = i + 1;
                    while j < n
                        invariant
                            i < j <= n,
                            n == q.len(),
                            self.queue() == q,
                            q == old(self).queue(),
                            outcomes@.len() == n,
                            outcomes@[i as int] == PollOutcome::Failed,
                            none_failed_before(outcomes@, i as int),
                            unfinished@ == still_pending(q.take(i as int), outcomes@),
                            id == q[i as int],
                            rest@ == q.subrange(i + 1, j as int),
                        decreases n - j,
                    {
                        rest.push(self.futures_queue[j]);
                        assert(q.subrange(i + 1, j + 1) =~= q.subrange(i + 1, j as int).push(q[j as int]));
                        j += 1;
                    }
                    rest.append(&mut unfinished);
                    self.futures_queue = rest;
                    assert(outcomes@[i as int] == PollOutcome::Failed);
                    assert forall|k: int|
                        0 <= k < n && #[trigger] outcomes@[k] == PollOutcome::Failed && none_failed_before(
                            outcomes@,
                            k,
                        ) implies Err::<(), u64>(id) == Err::<(), u64>(q[k]) && self.queue() == q.subrange(
                        k + 1,
                        q.len() as int,
                    ) + still_pending(q.take(k), outcomes@) by {
                        if k > i {
                            assert(outcomes@[i as int] != PollOutcome::Failed);
                        }
                        assert(k == i);
                    }
                    return Err(id);
                },
                PollOutcome::Done => {},
                PollOutcome::Pending => {
                    unfinished.push(id);
                },
            }
            i += 1;
        }
        assert(q.take(n as int) =~= q);
        self.futures_queue = unfinished;
        Ok(())
    }
}

/// A navigator for hosts without a browser: it hands spawned tasks to a
/// [`NullExecutor`] and resolves relative fetches against a base path.
pub struct NullNavigatorBackend {
    /// Tasks spawned since the host last collected them, when an executor is attached.
    channel: Option<Vec<u64>>,
    /// The base path for all relative fetches.
    relative_base_path: String,
}

impl NullNavigatorBackend {
    /// Whether an executor is attached.
    pub closed spec fn can_spawn(&self) -> bool {
        self.channel is Some
    }

    /// The base path for relative fetches.
    pub closed spec fn base_path(&self) -> Seq<char> {
        self.relative_base_path@
    }

    /// Tasks spawned and not yet collected.
    pub closed spec fn spawned(&self) -> Seq<u64> {
        match self.channel {
            Some(v) => v@,
            None => seq![],
        }
    }

    /// A navigator with no executor and an empty base path.
    pub fn new() -> (r: Self)
        ensures
            !r.can_spawn(),
            r.base_path() == Seq::<char>::empty(),
    {
        NullNavigatorBackend { channel: None, relative_base_path: String::new() }
    }

    /// A navigator that resolves fetches against `path` and can spawn tasks.
    pub fn with_base_path(path: &str) -> (r: Self)
        ensures
            r.can_spawn(),
            r.spawned() == Seq::<u64>::empty(),
            r.base_path() == path@,
    {
        NullNavigatorBackend { channel: Some(Vec::new()), relative_base_path: path.to_owned() }
    }

    /// The base path for relative fetches.
    pub fn relative_base_path(&self) -> (r: &String)
        ensures
            r@ == self.base_path(),
    {
        &self.relative_base_path
    }

    /// Time since launch in milliseconds: this navigator has no clock, so it is always zero.
    pub fn time_since_launch(&mut self) -> (r: u64)
        ensures
            r == 0,
            *final(self) == *old(self),
    {
        0
    }

    /// Hand a task to the attached executor.
    pub fn spawn_future(&mut self, task: u64)
        requires
            old(self).can_spawn(),
        ensures
            final(self).can_spawn(),
            final(self).spawned() == old(self).spawned().push(task),
            final(self).base_path() == old(self).base_path(),
    {
        match &mut self.channel {
            Some(v) => v.push(task),
            None => {},
        }
    }

    /// Collect the tasks spawned since the last collection.
    pub fn take_spawned(&mut self) -> (r: Vec<u64>)
        ensures
            r@ == old(self).spawned(),
            final(self).can_spawn() == old(self).can_spawn(),
            final(self).spawned() == Seq::<u64>::empty(),
            final(self).base_path() == old(self).base_path(),
    {
        match &mut self.channel {
            Some(v) => {
                let mut out: Vec<u64> = Vec::new();
                std::mem::swap(v, &mut out);
                out
            },
            None => Vec::new(),
        }
    }
}

} // verus!
