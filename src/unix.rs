use vstd::prelude::*;

verus! {

/// How the sink talks to the socket.
#[derive(Clone, Copy, Debug, PartialEq, Eq, Structural)]
pub enum UnixMode {
    Stream,
    Datagram,
}

pub fn default_unix_mode() -> (r: UnixMode)
    ensures
        r == UnixMode::Stream,
{
    UnixMode::Stream
}

/// A sink that writes to a Unix domain socket at `path`.
#[derive(Clone, Debug)]
pub struct UnixSinkConfig {
    /// The socket path; it should be absolute.
    pub path: String,
    unix_mode: UnixMode,
}

impl UnixSinkConfig {
    pub closed spec fn mode(&self) -> UnixMode {
        self.unix_mode
    }

    pub closed spec fn socket_path(&self) -> Seq<char> {
        self.path@
    }

    pub fn new(path: String, unix_mode: UnixMode) -> (r: UnixSinkConfig)
        ensures
            r.socket_path() == path@,
            r.mode() == unix_mode,
    {
        UnixSinkConfig { path, unix_mode }
    }

    pub fn unix_mode(&self) -> (r: UnixMode)
        ensures
            r == self.mode(),
    {
        self.unix_mode
    }

    /// The connector the sink and its health check use.
    pub fn connector(&self) -> (r: UnixConnector)
        ensures
            r.path@ == self.socket_path(),
            r.mode == self.mode(),
    {
        UnixConnector::new(self.path.clone(), self.unix_mode)
    }
}

/// Opens the socket a sink writes to.
#[derive(Clone, Debug)]
pub struct UnixConnector {
    pub path: String,
    pub mode: UnixMode,
}

/// `a * b`, or the largest `u64` where the product does not fit.
pub open spec fn saturating_product(a: u64, b: u64) -> u64 {
    if a * b <= u64::MAX {
        (a * b) as u64
    } else {
        u64::MAX
    }
}

/// Delays between attempts, in milliseconds, that grow geometrically up to
/// an optional cap.
#[derive(Clone, Copy, Debug, PartialEq, Eq, Structural)]
pub struct ExponentialBackoff {
    pub current: u64,
    pub base: u64,
    pub factor: u64,
    pub max_delay: Option<u64>,
}

/// Whether the uncapped delay of `b` exceeds its cap.
pub open spec fn over_cap(b: ExponentialBackoff) -> bool {
    match b.max_delay {
        Some(m) => saturating_product(b.current, b.factor) > m,
        None => false,
    }
}

/// The delay `b` gives next: its current value times the factor, capped.
pub open spec fn next_delay(b: ExponentialBackoff) -> u64 {
    match b.max_delay {
        Some(m) => if saturating_product(b.current, b.factor) > m {
            m
        } else {
            saturating_product(b.current, b.factor)
        },
        None => saturating_product(b.current, b.factor),
    }
}

fn mul_or_max(a: u64, b: u64) -> (r: u64)
    ensures
        r == saturating_product(a, b),
{
    match a.checked_mul(b) {
        Some(p) => p,
        None => u64::MAX,
    }
}

impl ExponentialBackoff {
    /// Starts at `base` milliseconds and multiplies by `base` at each step.
    pub fn from_millis(base: u64) -> (r: ExponentialBackoff)
        ensures
            r == (ExponentialBackoff { current: base, base, factor: 1, max_delay: None }),
    {
        ExponentialBackoff { current: base, base, factor: 1, max_delay: None }
    }

    /// Scales every delay by `factor`.
    pub fn factor(self, factor: u64) -> (r: ExponentialBackoff)
        ensures
            r == (ExponentialBackoff { factor, ..self }),
    {
        ExponentialBackoff { factor, ..self }
    }

    /// Caps every delay at `millis`.
    pub fn max_delay(self, millis: u64) -> (r: ExponentialBackoff)
        ensures
            r == (ExponentialBackoff { max_delay: Some(millis), ..self }),
    {
        ExponentialBackoff { max_delay: Some(millis), ..self }
    }

    /// The next delay. Once the cap is reached the delays stay there; below
    /// it, the next delay grows by `base`.
    pub fn next(&mut self) -> (r: u64)
        ensures
            r == next_delay(*old(self)),
            over_cap(*old(self)) ==> *final(self) == *old(self),
            !over_cap(*old(self)) ==> *final(self) == (ExponentialBackoff {
                current: saturating_product(old(self).current, old(self).base),
                ..*old(self)
            }),
    {
        let d = mul_or_max(self.current, self.factor);
        match self.max_delay {
            Some(m) => {
                if d > m {
                    return m;
                }
            },
            None => {},
        }
        self.current = mul_or_max(self.current, self.base);
        d
    }
}

/// What to do after an attempt to connect.
#[derive(Clone, Copy, Debug, PartialEq, Eq, Structural)]
pub enum ConnectAction {
    /// Use the connection.
    Proceed,
    /// Wait this many milliseconds, then try again.
    RetryAfter(u64),
}

impl UnixConnector {
    pub fn new(path: String, mode: UnixMode) -> (r: UnixConnector)
        ensures
            r.path@ == path@,
            r.mode == mode,
    {
        UnixConnector { path, mode }
    }

    /// The backoff a fresh series of attempts starts with: 2 ms, times 250,
    /// growing twofold, never over a minute.
    pub fn fresh_backoff() -> (r: ExponentialBackoff)
        ensures
            r == (ExponentialBackoff { current: 2, base: 2, factor: 250, max_delay: Some(60_000) }),
    {
        ExponentialBackoff::from_millis(2).factor(250).max_delay(60_000)
    }

    /// Decides what follows an attempt to connect: a success ends the series;
    /// a failure waits for the backoff's next delay.
    pub fn after_attempt(backoff: &mut ExponentialBackoff, connected: bool) -> (r: ConnectAction)
        ensures
            connected ==> r == ConnectAction::Proceed && *final(backoff) == *old(backoff),
            !connected ==> r == ConnectAction::RetryAfter(next_delay(*old(backoff))),
            !connected && over_cap(*old(backoff)) ==> *final(backoff) == *old(backoff),
            !connected && !over_cap(*old(backoff)) ==> *final(backoff) == (ExponentialBackoff {
                current: saturating_product(old(backoff).current, old(backoff).base),
                ..*old(backoff)
            }),
    {
        if connected {
            ConnectAction::Proceed
        } else {
            ConnectAction::RetryAfter(backoff.next())
        }
    }
}

/// How a record sent as one datagram ended.
#[derive(Clone, Copy, Debug, PartialEq, Eq, Structural)]
pub enum SendOutcome {
    /// Sent; `incomplete` where fewer bytes went out than the record holds.
    Delivered { incomplete: bool },
    /// The send failed: the record is marked errored and the socket is
    /// opened again.
    Errored,
}

/// Classifies a datagram send of a `len`-byte record that sent `sent` bytes,
/// or failed where `sent` is `None`.
pub fn datagram_send_outcome(sent: Option<usize>, len: usize) -> (r: SendOutcome)
    ensures
        sent is None ==> r == SendOutcome::Errored,
        sent matches Some(n) ==> r == (SendOutcome::Delivered { incomplete: n != len }),
{
    match sent {
        Some(n) => SendOutcome::Delivered { incomplete: n != len },
        None => SendOutcome::Errored,
    }
}

} // verus!
