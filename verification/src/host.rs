use vstd::prelude::*;

verus! {

/// The arithmetic that the host computes on double-precision numbers.
#[derive(Clone, Copy, Debug, PartialEq, Eq, Structural)]
pub enum Arithmetic {
    Add,
    Subtract,
    Multiply,
    Divide,
    Remainder,
}

/// What the language leaves to its host: arithmetic on double-precision
/// numbers, their reading and writing as text, the clock and the output stream.
/// Numbers cross this boundary as bit patterns.
pub trait Host {
    /// The number that a numeral of digits, with an optional fraction, denotes.
    fn parse_number(&mut self, text: &str) -> u64;

    /// The result of an arithmetic operation on two numbers.
    fn arithmetic(&mut self, operation: Arithmetic, left: u64, right: u64) -> u64;

    /// The text that shows a number.
    fn number_text(&mut self, number: u64) -> String;

    /// The seconds since the epoch.
    fn clock(&mut self) -> u64;

    /// Writes text to the output.
    fn write(&mut self, text: &str);
}

/// A question to the host.
pub enum Request {
    Parse(Seq<char>),
    Compute(Arithmetic, u64, u64),
    Render(u64),
    Clock,
    Write(Seq<char>),
}

/// An answer of the host.
pub enum Reply {
    Number(u64),
    Text(Seq<char>),
    Done,
}

impl Reply {
    /// The number of an answer; zero where the answer is none.
    pub open spec fn number(self) -> u64 {
        match self {
            Reply::Number(bits) => bits,
            _ => 0,
        }
    }

    /// The text of an answer; empty where the answer is none.
    pub open spec fn text(self) -> Seq<char> {
        match self {
            Reply::Text(text) => text,
            _ => Seq::<char>::empty(),
        }
    }
}

/// One question together with the answer it got.
pub struct Exchange {
    pub request: Request,
    pub reply: Reply,
}

/// A host as the semantics see it: the answer to each question, by the number
/// of questions asked before it.
pub type Oracle = spec_fn(int, Request) -> Reply;

/// Whether an oracle gives the answers that a dialogue recorded.
pub open spec fn agrees(oracle: Oracle, log: Seq<Exchange>) -> bool {
    forall|i: int| 0 <= i < log.len() ==> oracle(i, #[trigger] log[i].request) == log[i].reply
}

/// Whether a dialogue starts with another.
pub open spec fn extends(earlier: Seq<Exchange>, later: Seq<Exchange>) -> bool {
    earlier.len() <= later.len() && forall|i: int|
        0 <= i < earlier.len() ==> #[trigger] earlier[i] == later[i]
}

/// The questions of a dialogue, in order.
pub open spec fn requests(log: Seq<Exchange>) -> Seq<Request> {
    Seq::new(log.len(), |i: int| log[i].request)
}

/// An oracle that agrees with a dialogue agrees with every start of it.
pub broadcast proof fn agrees_with_earlier(oracle: Oracle, earlier: Seq<Exchange>, later: Seq<Exchange>)
    requires
        #[trigger] agrees(oracle, later),
        #[trigger] extends(earlier, later),
    ensures
        agrees(oracle, earlier),
{
    assert forall|i: int| 0 <= i < earlier.len() implies oracle(i, #[trigger] earlier[i].request)
        == earlier[i].reply by {
        assert(earlier[i] == later[i]);
    }
}

/// The start of a start of a dialogue is a start of it.
pub broadcast proof fn extends_transitive(a: Seq<Exchange>, b: Seq<Exchange>, c: Seq<Exchange>)
    requires
        #[trigger] extends(a, b),
        #[trigger] extends(b, c),
    ensures
        extends(a, c),
{
}

/// The oracle that answers as a dialogue recorded, and with `Done` beyond it.
pub open spec fn recorded(log: Seq<Exchange>) -> Oracle {
    |i: int, request: Request|
        if 0 <= i < log.len() {
            log[i].reply
        } else {
            Reply::Done
        }
}

/// Every dialogue has an oracle that agrees with it: what is stated of all
/// agreeing oracles is stated of at least one.
pub proof fn some_oracle_agrees(log: Seq<Exchange>)
    ensures
        agrees(recorded(log), log),
{
}

pub broadcast group dialogue {
    agrees_with_earlier,
    extends_transitive,
}

/// A host together with the record of what it was asked and what it answered.
pub struct Link<H: Host> {
    host: H,
    log: Ghost<Seq<Exchange>>,
}

/// That a dialogue grew by exactly one exchange.
pub open spec fn exchanged(before: Seq<Exchange>, after: Seq<Exchange>, request: Request, reply: Reply) -> bool {
    &&& after == before.push(Exchange { request, reply })
    &&& extends(before, after)
    &&& requests(after) == requests(before).push(request)
    &&& forall|oracle: Oracle| #[trigger]
        agrees(oracle, after) ==> oracle(before.len() as int, request) == reply
}

proof fn grow(before: Seq<Exchange>, request: Request, reply: Reply)
    ensures
        exchanged(before, before.push(Exchange { request, reply }), request, reply),
{
    let after = before.push(Exchange { request, reply });
    assert(requests(after) =~= requests(before).push(request));
    assert(after[before.len() as int].request == request);
}

impl<H: Host> Link<H> {
    /// The exchanges with the host so far, oldest first.
    pub closed spec fn log(&self) -> Seq<Exchange> {
        self.log@
    }

    /// The questions put to the host so far, oldest first.
    pub open spec fn asked(&self) -> Seq<Request> {
        requests(self.log())
    }

    /// A link to a host that has not been asked anything.
    pub fn new(host: H) -> (r: Self)
        ensures
            r.log() == Seq::<Exchange>::empty(),
            r.behind() == host,
    {
        Link { host, log: Ghost(Seq::empty()) }
    }

    /// The host behind the link, as a value.
    pub closed spec fn behind(&self) -> H {
        self.host
    }

    /// The host behind the link.
    pub fn host(&self) -> (r: &H)
        ensures
            *r == self.behind(),
    {
        &self.host
    }

    /// Gives the host back.
    pub fn into_host(self) -> (r: H)
        ensures
            r == self.behind(),
    {
        self.host
    }

    /// Asks the host for the number that a numeral denotes, and records it.
    pub fn parse_number(&mut self, text: &str) -> (r: u64)
        ensures
            exchanged(old(self).log(), final(self).log(), Request::Parse(text@), Reply::Number(r)),
    {
        let r = self.host.parse_number(text);
        proof {
            grow(self.log@, Request::Parse(text@), Reply::Number(r));
            self.log@ = self.log@.push(
                Exchange { request: Request::Parse(text@), reply: Reply::Number(r) },
            );
        }
        r
    }

    /// Asks the host for the result of an operation, and records it.
    pub fn arithmetic(&mut self, operation: Arithmetic, left: u64, right: u64) -> (r: u64)
        ensures
            exchanged(
                old(self).log(),
                final(self).log(),
                Request::Compute(operation, left, right),
                Reply::Number(r),
            ),
    {
        let r = self.host.arithmetic(operation, left, right);
        proof {
            grow(self.log@, Request::Compute(operation, left, right), Reply::Number(r));
            self.log@ = self.log@.push(
                Exchange { request: Request::Compute(operation, left, right), reply: Reply::Number(r) },
            );
        }
        r
    }

    /// Asks the host for the text that shows a number, and records it.
    pub fn number_text(&mut self, number: u64) -> (r: String)
        ensures
            exchanged(old(self).log(), final(self).log(), Request::Render(number), Reply::Text(r@)),
    {
        let r = self.host.number_text(number);
        proof {
            grow(self.log@, Request::Render(number), Reply::Text(r@));
            self.log@ = self.log@.push(
                Exchange { request: Request::Render(number), reply: Reply::Text(r@) },
            );
        }
        r
    }

    /// Asks the host for the time, and records it.
    pub fn clock(&mut self) -> (r: u64)
        ensures
            exchanged(old(self).log(), final(self).log(), Request::Clock, Reply::Number(r)),
    {
        let r = self.host.clock();
        proof {
            grow(self.log@, Request::Clock, Reply::Number(r));
            self.log@ = self.log@.push(Exchange { request: Request::Clock, reply: Reply::Number(r) });
        }
        r
    }

    /// Has the host write a text, and records it.
    pub fn write(&mut self, text: &str)
        ensures
            exchanged(old(self).log(), final(self).log(), Request::Write(text@), Reply::Done),
    {
        self.host.write(text);
        proof {
            grow(self.log@, Request::Write(text@), Reply::Done);
            self.log@ = self.log@.push(Exchange { request: Request::Write(text@), reply: Reply::Done });
        }
    }
}

} // verus!
