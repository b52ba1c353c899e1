//! Config service bookkeeping: the status of pending writes and errors, the tasks that track
//! source responses, the collection of source updates, and the decisions of the config file
//! worker (respawn after panics, debounced writes, write failures).
//!
//! Times are microsecond timestamps of a monotonic clock.
use vstd::prelude::*;

verus! {

/// A config error, by its display message.
pub struct ConfigError {
    pub message: String,
}

impl ConfigError {
    /// New error from its message.
    pub fn new_str(error: String) -> (r: ConfigError)
        ensures
            r.message@ == error@,
    {
        ConfigError { message: error }
    }

    /// A copy of the error.
    pub fn copy(&self) -> (r: ConfigError)
        ensures
            r.message@ == self.message@,
    {
        ConfigError { message: self.message.clone() }
    }
}

/// Current config status: pending writes and the last error of each kind with its count.
pub struct ConfigStatus {
    /// Number of writes waiting for the source.
    pub pending: usize,
    /// Last read error.
    pub read_error: Option<ConfigError>,
    /// Read errors so far.
    pub read_errors: u32,
    /// Last write error.
    pub write_error: Option<ConfigError>,
    /// Write errors so far.
    pub write_errors: u32,
    /// Last internal error.
    pub internal_error: Option<ConfigError>,
    /// Internal errors so far.
    pub internal_errors: u32,
}

/// The char of a decimal digit.
pub open spec fn digit_char(d: nat) -> char {
    (48 + d) as char
}

/// The decimal digits of `n`, most significant first, without leading zeros.
pub open spec fn decimal(n: nat) -> Seq<char>
    decreases n,
{
    if n < 10 {
        seq![digit_char(n)]
    } else {
        decimal(n / 10).push(digit_char(n % 10))
    }
}

/// The text of a decimal digit.
fn digit_str(d: usize) -> (r: &'static str)
    requires
        d < 10,
    ensures
        r@ == seq![digit_char(d as nat)],
{
    match d {
        0 => {
            proof {
                reveal_strlit("0");
            }
            "0"
        },
        1 => {
            proof {
                reveal_strlit("1");
            }
            "1"
        },
        2 => {
            proof {
                reveal_strlit("2");
            }
            "2"
        },
        3 => {
            proof {
                reveal_strlit("3");
            }
            "3"
        },
        4 => {
            proof {
                reveal_strlit("4");
            }
            "4"
        },
        5 => {
            proof {
                reveal_strlit("5");
            }
            "5"
        },
        6 => {
            proof {
                reveal_strlit("6");
            }
            "6"
        },
        7 => {
            proof {
                reveal_strlit("7");
            }
            "7"
        },
        8 => {
            proof {
                reveal_strlit("8");
            }
            "8"
        },
        _ => {
            proof {
                reveal_strlit("9");
            }
            "9"
        },
    }
}

/// The decimal digits of `n`, as `usize::to_string` gives them.
fn usize_to_string(n: usize) -> (r: String)
    ensures
        r@ == decimal(n as nat),
    decreases n,
{
    let mut s = if n < 10 {
        String::new()
    } else {
        usize_to_string(n / 10)
    };
    s.append(digit_str(n % 10));
    proof {
        if n < 10 {
            assert(s@ =~= seq![digit_char(n as nat)]);
        } else {
            assert(s@ =~= decimal((n / 10) as nat).push(digit_char((n % 10) as nat)));
        }
    }
    s
}

/// The status text: the pending updates line, then one line per error kind that is set.
pub open spec fn status_text(
    pending: usize,
    internal: Option<Seq<char>>,
    read: Option<Seq<char>>,
    write: Option<Seq<char>>,
) -> Seq<char> {
    let p = if pending == 1 {
        decimal(pending as nat) + " update pending…\n"@
    } else if pending > 1 {
        decimal(pending as nat) + " updates pending…\n"@
    } else {
        Seq::empty()
    };
    let i = match internal {
        Some(m) => "internal error: "@ + m + "\n"@,
        None => Seq::empty(),
    };
    let r = match read {
        Some(m) => "read error: "@ + m + "\n"@,
        None => Seq::empty(),
    };
    let w = match write {
        Some(m) => "write error: "@ + m + "\n"@,
        None => Seq::empty(),
    };
    p + i + r + w
}

/// Setting the write error adds its line, `write error: ` and the message, at the end of the
/// status text and changes nothing before it.
pub proof fn law_status_shows_write_error(
    pending: usize,
    internal: Option<Seq<char>>,
    read: Option<Seq<char>>,
    message: Seq<char>,
)
    ensures
        ({
            let line = "write error: "@ + message + "\n"@;
            let t = status_text(pending, internal, read, Some(message));
            &&& t == status_text(pending, internal, read, None) + line
            &&& t.len() >= line.len()
            &&& t.subrange(t.len() - line.len(), t.len() as int) == line
        }),
{
    let line = "write error: "@ + message + "\n"@;
    let t = status_text(pending, internal, read, Some(message));
    let u = status_text(pending, internal, read, None);
    assert(u =~= u + Seq::<char>::empty());
    assert(t =~= u + line);
    assert(t.subrange(t.len() - line.len(), t.len() as int) =~= line);
}

/// A status text holds the line of each error that is set, `internal error: `, `read error: `
/// or `write error: ` followed by the message and a line end.
pub proof fn law_status_shows_each_error(
    pending: usize,
    internal: Option<Seq<char>>,
    read: Option<Seq<char>>,
    write: Option<Seq<char>>,
)
    ensures
        ({
            let t = status_text(pending, internal, read, write);
            &&& internal matches Some(m) ==> has_part(t, "internal error: "@ + m + "\n"@)
            &&& read matches Some(m) ==> has_part(t, "read error: "@ + m + "\n"@)
            &&& write matches Some(m) ==> has_part(t, "write error: "@ + m + "\n"@)
        }),
{
    let p = if pending == 1 {
        decimal(pending as nat) + " update pending…\n"@
    } else if pending > 1 {
        decimal(pending as nat) + " updates pending…\n"@
    } else {
        Seq::empty()
    };
    let i = match internal {
        Some(m) => "internal error: "@ + m + "\n"@,
        None => Seq::empty(),
    };
    let r = match read {
        Some(m) => "read error: "@ + m + "\n"@,
        None => Seq::empty(),
    };
    let w = match write {
        Some(m) => "write error: "@ + m + "\n"@,
        None => Seq::empty(),
    };
    let t = status_text(pending, internal, read, write);
    assert(t == p + i + r + w);
    assert(t.subrange(p.len() as int, (p.len() + i.len()) as int) =~= i);
    assert(t.subrange((p.len() + i.len()) as int, (p.len() + i.len() + r.len()) as int) =~= r);
    assert(t.subrange((p.len() + i.len() + r.len()) as int, t.len() as int) =~= w);
}

/// `part` stands in `s` as a contiguous run of characters.
pub open spec fn has_part(s: Seq<char>, part: Seq<char>) -> bool {
    exists|j: int| 0 <= j && j + part.len() <= s.len() && #[trigger] s.subrange(j, j + part.len()) == part
}

/// The message of an error, if any.
pub open spec fn message_of(e: Option<ConfigError>) -> Option<Seq<char>> {
    match e {
        Some(e) => Some(e.message@),
        None => None,
    }
}

fn push_error_line(text: &mut String, label: &str, e: &Option<ConfigError>)
    ensures
        final(text)@ == old(text)@ + (match message_of(*e) {
            Some(m) => label@ + m + "\n"@,
            None => Seq::empty(),
        }),
{
    match e {
        Some(e) => {
            text.append(label);
            text.append(e.message.as_str());
            text.append("\n");
            assert(final(text)@ =~= old(text)@ + (label@ + e.message@ + "\n"@));
        },
        None => {
            assert(text@ =~= old(text)@ + Seq::<char>::empty());
        },
    }
}

impl ConfigStatus {
    /// No pending writes and no errors.
    pub fn new() -> (r: ConfigStatus)
        ensures
            r.pending == 0,
            r.read_error is None && r.write_error is None && r.internal_error is None,
            r.read_errors == 0 && r.write_errors == 0 && r.internal_errors == 0,
    {
        ConfigStatus {
            pending: 0,
            read_error: None,
            read_errors: 0,
            write_error: None,
            write_errors: 0,
            internal_error: None,
            internal_errors: 0,
        }
    }

    /// If any error is set.
    pub fn has_errors(&self) -> (r: bool)
        ensures
            r == (self.read_error is Some || self.write_error is Some || self.internal_error is Some),
    {
        self.read_error.is_some() || self.write_error.is_some() || self.internal_error.is_some()
    }

    /// Records a read error.
    pub fn set_read_error(&mut self, e: ConfigError)
        requires
            old(self).read_errors < u32::MAX,
        ensures
            final(self).read_error == Some(e),
            final(self).read_errors == old(self).read_errors + 1,
            final(self).pending == old(self).pending,
            final(self).write_error == old(self).write_error,
            final(self).write_errors == old(self).write_errors,
            final(self).internal_error == old(self).internal_error,
            final(self).internal_errors == old(self).internal_errors,
    {
        self.read_error = Some(e);
        self.read_errors = self.read_errors + 1;
    }

    /// Records a write error.
    pub fn set_write_error(&mut self, e: ConfigError)
        requires
            old(self).write_errors < u32::MAX,
        ensures
            final(self).write_error == Some(e),
            final(self).write_errors == old(self).write_errors + 1,
            final(self).pending == old(self).pending,
            final(self).read_error == old(self).read_error,
            final(self).read_errors == old(self).read_errors,
            final(self).internal_error == old(self).internal_error,
            final(self).internal_errors == old(self).internal_errors,
    {
        self.write_error = Some(e);
        self.write_errors = self.write_errors + 1;
    }

    /// Records an internal error.
    pub fn set_internal_error(&mut self, e: ConfigError)
        requires
            old(self).internal_errors < u32::MAX,
        ensures
            final(self).internal_error == Some(e),
            final(self).internal_errors == old(self).internal_errors + 1,
            final(self).pending == old(self).pending,
            final(self).read_error == old(self).read_error,
            final(self).read_errors == old(self).read_errors,
            final(self).write_error == old(self).write_error,
            final(self).write_errors == old(self).write_errors,
    {
        self.internal_error = Some(e);
        self.internal_errors = self.internal_errors + 1;
    }

    /// Clears the last errors if any is set; the counts are kept.
    pub fn clear_errors(&mut self)
        ensures
            final(self).read_error is None && final(self).write_error is None && final(self).internal_error is None,
            final(self).pending == old(self).pending,
            final(self).read_errors == old(self).read_errors,
            final(self).write_errors == old(self).write_errors,
            final(self).internal_errors == old(self).internal_errors,
    {
        if self.has_errors() {
            self.read_error = None;
            self.write_error = None;
            self.internal_error = None;
        }
    }

    /// The status as text: `1 update pending…` or `N updates pending…` when writes are
    /// pending, then the internal, read and write errors that are set, one per line.
    pub fn to_text(&self) -> (r: String)
        ensures
            r@ == status_text(
                self.pending,
                message_of(self.internal_error),
                message_of(self.read_error),
                message_of(self.write_error),
            ),
    {
        let mut text = String::new();
        if self.pending == 1 {
            text.append(usize_to_string(self.pending).as_str());
            text.append(" update pending…\n");
        } else if self.pending > 1 {
            text.append(usize_to_string(self.pending).as_str());
            text.append(" updates pending…\n");
        }
        push_error_line(&mut text, "internal error: ", &self.internal_error);
        push_error_line(&mut text, "read error: ", &self.read_error);
        push_error_line(&mut text, "write error: ", &self.write_error);
        assert(text@ =~= status_text(
            self.pending,
            message_of(self.internal_error),
            message_of(self.read_error),
            message_of(self.write_error),
        ));
        text
    }
}

/// An update notified by a config source.
pub enum ConfigSourceUpdate {
    /// The value of the key may have changed.
    Refresh(String),
    /// All values may have changed.
    RefreshAll,
    /// The source had an error.
    InternalError(ConfigError),
}

/// Keys to read again after a batch of source updates.
pub struct RefreshRequests {
    /// Every observed key must be read.
    pub read_all: bool,
    /// Keys to read, each once, when not reading all.
    pub keys: Vec<String>,
}

/// If some key of `keys` is `key`.
pub open spec fn seq_has_key(keys: Seq<String>, key: Seq<char>) -> bool {
    exists|i: int| 0 <= i < keys.len() && keys[i]@ == key
}

fn has_key(keys: &Vec<String>, key: &String) -> (r: bool)
    ensures
        r == seq_has_key(keys@, key@),
{
    let mut i: usize = 0;
    while i < keys.len()
        invariant
            i <= keys@.len(),
            forall|j: int| 0 <= j < i ==> keys@[j]@ != key@,
        decreases keys@.len() - i,
    {
        if crate::property::str_eq(keys[i].as_str(), key.as_str()) {
            return true;
        }
        i = i + 1;
    }
    false
}

/// The key an update asks to refresh, if it is a single-key refresh.
pub open spec fn refresh_key(u: ConfigSourceUpdate) -> Option<Seq<char>> {
    match u {
        ConfigSourceUpdate::Refresh(k) => Some(k@),
        _ => None,
    }
}

/// If an update asks to refresh exactly `key`.
pub open spec fn is_refresh_of(u: ConfigSourceUpdate, key: Seq<char>) -> bool {
    match u {
        ConfigSourceUpdate::Refresh(k) => k@ == key,
        _ => false,
    }
}

/// Some single-key refresh in the batch asks for `key`.
pub open spec fn has_refresh_of(updates: Seq<ConfigSourceUpdate>, key: Seq<char>) -> bool {
    exists|i: int| 0 <= i < updates.len() && #[trigger] is_refresh_of(updates[i], key)
}

/// Number of internal errors in a batch of updates.
pub open spec fn internal_error_count(s: Seq<ConfigSourceUpdate>) -> nat
    decreases s.len(),
{
    if s.len() == 0 {
        0
    } else {
        internal_error_count(s.drop_last()) + if s.last() is InternalError {
            1nat
        } else {
            0nat
        }
    }
}

/// The internal error recorded after a batch of updates: the last one in the batch, or
/// `prev` when the batch has none.
pub open spec fn last_internal_error(s: Seq<ConfigSourceUpdate>, prev: Option<ConfigError>) -> Option<ConfigError>
    decreases s.len(),
{
    if s.len() == 0 {
        prev
    } else {
        match s.last() {
            ConfigSourceUpdate::InternalError(e) => Some(e),
            _ => last_internal_error(s.drop_last(), prev),
        }
    }
}

/// Processes a batch of source updates: refresh requests are collected (each key once, none
/// after a refresh-all), internal errors are recorded in the status.
pub fn collect_source_updates(updates: Vec<ConfigSourceUpdate>, status: &mut ConfigStatus) -> (r: RefreshRequests)
    requires
        old(status).internal_errors + updates@.len() <= u32::MAX,
    ensures
        r.read_all == exists|i: int| 0 <= i < updates@.len() && updates@[i] is RefreshAll,
        forall|i: int, j: int| 0 <= i < j < r.keys@.len() ==> r.keys@[i]@ != r.keys@[j]@,
        forall|q: int| 0 <= q < r.keys@.len() ==> has_refresh_of(updates@, #[trigger] r.keys@[q]@),
        !r.read_all ==> forall|i: int|
            0 <= i < updates@.len() && (#[trigger] refresh_key(updates@[i])) is Some ==> seq_has_key(
                r.keys@,
                refresh_key(updates@[i])->0,
            ),
        final(status).internal_errors == old(status).internal_errors + internal_error_count(updates@),
        final(status).internal_error == last_internal_error(updates@, old(status).internal_error),
        final(status).pending == old(status).pending,
        final(status).read_error == old(status).read_error,
        final(status).read_errors == old(status).read_errors,
        final(status).write_error == old(status).write_error,
        final(status).write_errors == old(status).write_errors,
{
    let ghost orig = updates@;
    let mut rest = updates;
    let mut read_all = false;
    let mut keys: Vec<String> = Vec::new();
    let total = rest.len();
    let mut k: usize = 0;
    let ghost mut wit: Seq<int> = Seq::empty();
    while rest.len() > 0
        invariant
            orig.len() == total,
            wit.len() == keys@.len(),
            forall|q: int| 0 <= q < keys@.len() ==> 0 <= #[trigger] wit[q] < k && is_refresh_of(orig[wit[q]], keys@[q]@),
            k + rest@.len() == total,
            rest@ == orig.skip(k as int),
            status.internal_errors == old(status).internal_errors + internal_error_count(orig.take(k as int)),
            status.internal_error == last_internal_error(orig.take(k as int), old(status).internal_error),
            old(status).internal_errors + total <= u32::MAX,
            internal_error_count(orig.take(k as int)) <= k,
            read_all == exists|i: int| 0 <= i < k && orig[i] is RefreshAll,
            forall|i: int, j: int| 0 <= i < j < keys@.len() ==> keys@[i]@ != keys@[j]@,
            !read_all ==> forall|i: int|
                0 <= i < k && (#[trigger] refresh_key(orig[i])) is Some ==> seq_has_key(
                    keys@,
                    refresh_key(orig[i])->0,
                ),
            status.pending == old(status).pending,
            status.read_error == old(status).read_error,
            status.read_errors == old(status).read_errors,
            status.write_error == old(status).write_error,
            status.write_errors == old(status).write_errors,
        decreases rest@.len(),
    {
        let u = rest.remove(0);
        proof {
            assert(orig[k as int] == u);
            assert(rest@ =~= orig.skip(k + 1));
            assert(orig.take(k + 1).drop_last() =~= orig.take(k as int));
            assert(orig.take(k + 1).last() == u);
        }
        let ghost keys_before = keys@;
        match u {
            ConfigSourceUpdate::Refresh(key) => {
                if !read_all && !has_key(&keys, &key) {
                    keys.push(key);
                    proof {
                        wit = wit.push(k as int);
                        assert forall|q: int| 0 <= q < keys@.len() implies 0 <= #[trigger] wit[q] < k + 1
                            && is_refresh_of(orig[wit[q]], keys@[q]@) by {
                            if q < keys@.len() - 1 {
                                assert(keys@[q] == keys_before[q]);
                            }
                        }
                        assert forall|i: int|
                            0 <= i < k + 1 && (#[trigger] refresh_key(orig[i])) is Some implies seq_has_key(
                                keys@,
                                refresh_key(orig[i])->0,
                            ) by {
                            if i == k {
                                assert(keys@[keys@.len() - 1]@ == refresh_key(orig[i])->0);
                            } else {
                                let j = choose|j: int| 0 <= j < keys_before.len() && keys_before[j]@ == refresh_key(orig[i])->0;
                                assert(keys@[j] == keys_before[j]);
                            }
                        }
                    }
                } else {
                    proof {
                        assert forall|i: int|
                            !read_all && 0 <= i < k + 1 && (#[trigger] refresh_key(orig[i])) is Some implies seq_has_key(
                                keys@,
                                refresh_key(orig[i])->0,
                            ) by {
                        }
                    }
                }
            },
            ConfigSourceUpdate::RefreshAll => {
                read_all = true;
            },
            ConfigSourceUpdate::InternalError(e) => {
                status.set_internal_error(e);
            },
        }
        proof {
            if u is RefreshAll {
                assert(orig[k as int] is RefreshAll);
            }
        }
        k = k + 1;
    }
    let r = RefreshRequests { read_all, keys };
    proof {
        assert(orig.take(total as int) =~= orig);
        assert forall|q: int| 0 <= q < r.keys@.len() implies has_refresh_of(updates@, #[trigger] r.keys@[q]@) by {
            let i = wit[q];
            assert(orig[i] == updates@[i]);
            assert(is_refresh_of(updates@[i], r.keys@[q]@));
        }
    }
    r
}

/// Outcome of polling the response of a source write.
pub enum WritePoll {
    /// The source responded.
    Done(Result<(), ConfigError>),
    /// No response yet.
    Pending,
    /// The source dropped the response channel.
    Disconnected(ConfigError),
}

/// Tracks a write request until the source responds; counts as one pending write while it
/// waits.
pub struct WriteTask {
    /// Pending writes counted in the status for this request: zero or one.
    pub count: usize,
}

impl WriteTask {
    /// A task that did not poll yet.
    pub fn new() -> (r: WriteTask)
        ensures
            r.count == 0,
    {
        WriteTask { count: 0 }
    }

    /// Applies a poll outcome; returns `true` while the task must be kept. On the first
    /// pending poll the task adds a pending write; when done it removes it, recording the
    /// write error if any.
    pub fn poll(&mut self, status: &mut ConfigStatus, poll: WritePoll) -> (r: bool)
        requires
            old(self).count <= old(status).pending,
            old(self).count <= 1,
            old(status).pending < usize::MAX,
            old(status).write_errors < u32::MAX,
        ensures
            final(status).read_error == old(status).read_error,
            final(status).internal_error == old(status).internal_error,
            (match poll {
                WritePoll::Pending => {
                    &&& r
                    &&& final(self).count == 1
                    &&& final(status).pending == (if old(self).count == 0 {
                        old(status).pending + 1
                    } else {
                        old(status).pending as int
                    })
                    &&& final(status).write_error == old(status).write_error
                    &&& final(status).write_errors == old(status).write_errors
                },
                WritePoll::Done(Ok(())) => {
                    &&& !r
                    &&& final(status).pending == old(status).pending - old(self).count
                    &&& final(status).write_error == old(status).write_error
                    &&& final(status).write_errors == old(status).write_errors
                },
                WritePoll::Done(Err(e)) => {
                    &&& !r
                    &&& final(status).pending == old(status).pending - old(self).count
                    &&& final(status).write_error == Some(e)
                    &&& final(status).write_errors == old(status).write_errors + 1
                },
                WritePoll::Disconnected(e) => {
                    &&& !r
                    &&& final(status).pending == old(status).pending - old(self).count
                    &&& final(status).write_error == Some(e)
                    &&& final(status).write_errors == old(status).write_errors + 1
                },
            }),
    {
        match poll {
            WritePoll::Done(result) => {
                status.pending = status.pending - self.count;
                match result {
                    Ok(()) => {},
                    Err(e) => status.set_write_error(e),
                }
                false
            },
            WritePoll::Pending => {
                if self.count == 0 {
                    self.count = 1;
                    status.pending = status.pending + 1;
                }
                true
            },
            WritePoll::Disconnected(e) => {
                status.pending = status.pending - self.count;
                status.set_write_error(e);
                false
            },
        }
    }
}

/// Outcome of polling the response of a source read, `V` is the read value.
pub enum ReadPoll<V> {
    /// The source responded with the value, `None` if the key is not set or the value could
    /// not be read as the requested type.
    Done(Option<V>),
    /// The source responded with an error.
    Failed(ConfigError),
    /// No response yet.
    Pending,
    /// The source dropped the response channel.
    Disconnected(ConfigError),
}

/// What a read task does with a poll outcome: keep waiting, or respond with a value.
pub enum ReadStep<V> {
    Wait,
    Respond(Option<V>),
}

/// Applies a poll outcome of a read: errors are recorded and answered with `None`.
pub fn read_step<V>(status: &mut ConfigStatus, poll: ReadPoll<V>) -> (r: ReadStep<V>)
    requires
        old(status).read_errors < u32::MAX,
    ensures
        final(status).pending == old(status).pending,
        final(status).write_error == old(status).write_error,
        final(status).internal_error == old(status).internal_error,
        (match poll {
            ReadPoll::Done(v) => r == ReadStep::Respond(v) && final(status).read_error == old(status).read_error
                && final(status).read_errors == old(status).read_errors,
            ReadPoll::Pending => r is Wait && final(status).read_error == old(status).read_error
                && final(status).read_errors == old(status).read_errors,
            ReadPoll::Failed(e) => r == ReadStep::<V>::Respond(None) && final(status).read_error == Some(e)
                && final(status).read_errors == old(status).read_errors + 1,
            ReadPoll::Disconnected(e) => r == ReadStep::<V>::Respond(None) && final(status).read_error == Some(e)
                && final(status).read_errors == old(status).read_errors + 1,
        }),
{
    match poll {
        ReadPoll::Done(v) => ReadStep::Respond(v),
        ReadPoll::Pending => ReadStep::Wait,
        ReadPoll::Failed(e) => {
            status.set_read_error(e);
            ReadStep::Respond(None)
        },
        ReadPoll::Disconnected(e) => {
            status.set_read_error(e);
            ReadStep::Respond(None)
        },
    }
}

/// One minute, in microseconds.
pub const MINUTE: u64 = 60_000_000u64;

/// What to do with a request to the config file worker.
#[derive(Clone, Copy, Debug, PartialEq, Eq, Structural)]
pub enum SendAction {
    /// The worker is shut down: answer the request with an error.
    RespondShutdown,
    /// Send the request to the running worker.
    Send,
    /// Spawn the worker and send it the request.
    Spawn,
}

/// What to do after the worker thread panicked.
#[derive(Clone, Copy, Debug, PartialEq, Eq, Structural)]
pub enum PanicAction {
    /// Report the error and ask for all values to be read again; the worker is spawned by the
    /// next request.
    Respawn,
    /// Report the error and stop the worker for good.
    Shutdown,
}

/// State of the config file source around its worker thread.
pub struct ConfigFileState {
    /// The worker is permanently shut down after repeated panics.
    pub is_shutdown: bool,
    /// The worker thread is running.
    pub running: bool,
    /// Time of the last worker panic.
    pub last_panic: Option<u64>,
    /// Panics within a minute of each other.
    pub panic_count: usize,
}

impl ConfigFileState {
    /// No worker yet.
    pub fn new() -> (r: ConfigFileState)
        ensures
            !r.is_shutdown && !r.running && r.last_panic is None && r.panic_count == 0,
    {
        ConfigFileState { is_shutdown: false, running: false, last_panic: None, panic_count: 0 }
    }

    /// What to do with a new request; a spawned worker is running afterwards.
    pub fn send_action(&mut self) -> (r: SendAction)
        ensures
            old(self).is_shutdown ==> r == SendAction::RespondShutdown && final(self).running == old(self).running,
            !old(self).is_shutdown && old(self).running ==> r == SendAction::Send && final(self).running,
            !old(self).is_shutdown && !old(self).running ==> r == SendAction::Spawn && final(self).running,
            final(self).is_shutdown == old(self).is_shutdown,
            final(self).last_panic == old(self).last_panic,
            final(self).panic_count == old(self).panic_count,
    {
        if self.is_shutdown {
            SendAction::RespondShutdown
        } else if self.running {
            SendAction::Send
        } else {
            self.running = true;
            SendAction::Spawn
        }
    }

    /// The running worker disconnected (it panicked) at `now`: the panic counts toward the
    /// previous ones if the last was less than a minute before, otherwise it starts a new
    /// count; more than five panics shut the worker down.
    pub fn on_worker_panic(&mut self, now: u64) -> (r: PanicAction)
        requires
            old(self).panic_count < usize::MAX,
        ensures
            !final(self).running,
            final(self).last_panic == Some(now),
            final(self).panic_count == (match old(self).last_panic {
                Some(last) => if (if now >= last { now - last } else { 0 }) < MINUTE {
                    old(self).panic_count + 1
                } else {
                    1
                },
                None => 1,
            }),
            final(self).panic_count > 5 ==> r == PanicAction::Shutdown && final(self).is_shutdown,
            final(self).panic_count <= 5 ==> r == PanicAction::Respawn && final(self).is_shutdown == old(
                self,
            ).is_shutdown,
    {
        self.running = false;
        match self.last_panic {
            Some(last) => {
                let elapsed = if now >= last {
                    now - last
                } else {
                    0
                };
                if elapsed < MINUTE {
                    self.panic_count = self.panic_count + 1;
                } else {
                    self.panic_count = 1;
                }
            },
            None => {
                self.panic_count = 1;
            },
        }
        self.last_panic = Some(now);
        if self.panic_count > 5 {
            self.is_shutdown = true;
            PanicAction::Shutdown
        } else {
            PanicAction::Respawn
        }
    }
}

/// The updates the config source sends after a worker panic: the error, then, when the
/// worker is respawned, a request to read every value again.
pub fn panic_updates(action: PanicAction, error: ConfigError) -> (r: Vec<ConfigSourceUpdate>)
    ensures
        r@ == (match action {
            PanicAction::Shutdown => seq![ConfigSourceUpdate::InternalError(error)],
            PanicAction::Respawn => seq![ConfigSourceUpdate::InternalError(error), ConfigSourceUpdate::RefreshAll],
        }),
{
    let mut r: Vec<ConfigSourceUpdate> = Vec::new();
    r.push(ConfigSourceUpdate::InternalError(error));
    match action {
        PanicAction::Shutdown => {},
        PanicAction::Respawn => r.push(ConfigSourceUpdate::RefreshAll),
    }
    proof {
        match action {
            PanicAction::Shutdown => assert(r@ =~= seq![ConfigSourceUpdate::InternalError(error)]),
            PanicAction::Respawn => assert(r@ =~= seq![
                ConfigSourceUpdate::InternalError(error),
                ConfigSourceUpdate::RefreshAll,
            ]),
        }
    }
    r
}

/// One second, in microseconds.
pub const SECOND: u64 = 1_000_000u64;

/// Thirty minutes, in microseconds: how long an idle worker waits for a request.
pub const IDLE_WAIT: u64 = 1_800_000_000u64;

/// Debounce state of the config file worker loop.
pub struct WorkerState {
    /// Writes waiting for the file to be written.
    pub pending_writes: usize,
    /// When the oldest pending write arrived.
    pub oldest_pending: u64,
    /// Consecutive failed file writes.
    pub write_fails: u32,
    /// The worker keeps running; a shutdown request stops it after a last flush.
    pub run: bool,
}

impl WorkerState {
    /// No pending writes, running.
    pub fn new(now: u64) -> (r: WorkerState)
        ensures
            r.pending_writes == 0 && r.oldest_pending == now && r.write_fails == 0 && r.run,
    {
        WorkerState { pending_writes: 0, oldest_pending: now, write_fails: 0, run: true }
    }

    /// How long to wait for the next request: one second while recovering from a write
    /// failure, thirty minutes with nothing pending, otherwise the write delay.
    pub fn recv_timeout(&self, write_delay: u64) -> (r: u64)
        ensures
            r == (if self.write_fails > 0 {
                SECOND
            } else if self.pending_writes == 0 {
                IDLE_WAIT
            } else {
                write_delay
            }),
    {
        if self.write_fails > 0 {
            SECOND
        } else if self.pending_writes == 0 {
            IDLE_WAIT
        } else {
            write_delay
        }
    }

    /// A write or remove request arrived at `now`; if it `changed` the data it waits for the
    /// next file write, else it is answered at once. Returns if it must be answered now.
    pub fn on_change(&mut self, changed: bool, now: u64) -> (r: bool)
        requires
            old(self).pending_writes < usize::MAX,
        ensures
            r == !changed,
            changed ==> final(self).pending_writes == old(self).pending_writes + 1,
            changed && old(self).pending_writes == 0 ==> final(self).oldest_pending == now,
            changed && old(self).pending_writes > 0 ==> final(self).oldest_pending == old(self).oldest_pending,
            !changed ==> final(self).pending_writes == old(self).pending_writes && final(self).oldest_pending
                == old(self).oldest_pending,
            final(self).write_fails == old(self).write_fails,
            final(self).run == old(self).run,
    {
        if changed {
            if self.pending_writes == 0 {
                self.oldest_pending = now;
            }
            self.pending_writes = self.pending_writes + 1;
            false
        } else {
            true
        }
    }

    /// A shutdown request arrived: the loop ends after a last flush.
    pub fn on_shutdown(&mut self)
        ensures
            !final(self).run,
            final(self).pending_writes == old(self).pending_writes,
            final(self).oldest_pending == old(self).oldest_pending,
            final(self).write_fails == old(self).write_fails,
    {
        self.run = false;
    }

    /// The file must be written now: writes are pending or a failure is being recovered, and
    /// the debounce delay elapsed or the worker is stopping.
    pub fn should_write(&self, now: u64, write_delay: u64) -> (r: bool)
        ensures
            r == ((self.pending_writes > 0 || self.write_fails > 0) && (!self.run || (if now
                >= self.oldest_pending {
                now - self.oldest_pending
            } else {
                0
            }) >= write_delay)),
    {
        let elapsed = if now >= self.oldest_pending {
            now - self.oldest_pending
        } else {
            0
        };
        (self.pending_writes > 0 || self.write_fails > 0) && (!self.run || elapsed >= write_delay)
    }

    /// The file write finished: all pending writes are answered with the result; failures are
    /// counted, and more than five in a row stop the worker (returns `false`).
    pub fn on_written(&mut self, ok: bool) -> (r: bool)
        requires
            old(self).write_fails < u32::MAX,
        ensures
            final(self).pending_writes == 0,
            ok ==> final(self).write_fails == 0 && r,
            !ok ==> final(self).write_fails == old(self).write_fails + 1 && r == (final(self).write_fails <= 5),
            final(self).run == old(self).run,
            final(self).oldest_pending == old(self).oldest_pending,
    {
        self.pending_writes = 0;
        if ok {
            self.write_fails = 0;
            true
        } else {
            self.write_fails = self.write_fails + 1;
            self.write_fails <= 5
        }
    }
}

} // verus!
