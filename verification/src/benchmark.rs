//! Counting the work of the benchmark's threads.
//!
//! Each worker goes round the corpus from its own starting line. It keeps its
//! count to itself and publishes it in lots, so that the workers seldom meet at
//! the shared counter; what is left of a lot is published at the end.
use vstd::prelude::*;

verus! {

/// How many events a worker counts before it publishes them.
pub const LOT: u64 = 1024;

/// How many of `count` events have been published in full lots.
pub open spec fn published_of(count: nat) -> nat {
    (count - count % (LOT as nat)) as nat
}

/// The line that a worker works on after `count` events: it starts at its own
/// number and goes round the `size` lines of the corpus.
pub open spec fn position_of(worker: nat, count: nat, size: nat) -> nat {
    (worker + count) % size
}

/// What one worker has done.
pub struct WorkerTally {
    worker: usize,
    size: usize,
    position: usize,
    count: u64,
}

proof fn lemma_step(x: nat, s: nat)
    requires
        s > 0,
    ensures
        (x + 1) % s == (if x % s + 1 == s {
            0
        } else {
            x % s + 1
        }),
{
    let d = s as int;
    let q = x as int / d;
    let r = x as int % d;
    vstd::arithmetic::div_mod::lemma_fundamental_div_mod(x as int, d);
    if r + 1 == d {
        assert((q + 1) * d + 0 == d * q + r + 1) by (nonlinear_arith)
            requires
                r + 1 == d,
        ;
        vstd::arithmetic::div_mod::lemma_fundamental_div_mod_converse(x as int + 1, d, q + 1, 0);
    } else {
        assert(q * d + (r + 1) == d * q + r + 1) by (nonlinear_arith);
        vstd::arithmetic::div_mod::lemma_fundamental_div_mod_converse(x as int + 1, d, q, r + 1);
    }
}

impl WorkerTally {
    #[verifier::type_invariant]
    spec fn well_formed(self) -> bool {
        &&& self.size > 0
        &&& self.position == (self.worker + self.count) as nat % (self.size as nat)
    }

    /// The number of the worker.
    pub closed spec fn worker_of(self) -> nat {
        self.worker as nat
    }

    /// The number of lines in the corpus.
    pub closed spec fn size_of(self) -> nat {
        self.size as nat
    }

    /// The number of events the worker has counted.
    pub closed spec fn count_of(self) -> nat {
        self.count as nat
    }

    /// The tally of worker number `worker` on a corpus of `size` lines.
    pub fn new(worker: usize, size: usize) -> (r: Self)
        requires
            size > 0,
        ensures
            r.worker_of() == worker,
            r.size_of() == size,
            r.count_of() == 0,
    {
        WorkerTally { worker, size, position: worker % size, count: 0 }
    }

    /// The number of events the worker has counted.
    pub fn count(&self) -> (r: u64)
        ensures
            r == self.count_of(),
    {
        self.count
    }

    /// The line to work on: the worker starts at its own number and goes round.
    pub fn position(&self) -> (r: usize)
        ensures
            r == position_of(self.worker_of(), self.count_of(), self.size_of()),
            r < self.size_of(),
    {
        proof {
            use_type_invariant(self);
        }
        self.position
    }

    /// Counts one event, moves on to the next line, and says how many events to
    /// publish now.
    pub fn advance(&mut self) -> (publish: u64)
        requires
            old(self).count_of() < u64::MAX,
        ensures
            final(self).worker_of() == old(self).worker_of(),
            final(self).size_of() == old(self).size_of(),
            final(self).count_of() == old(self).count_of() + 1,
            published_of(final(self).count_of()) == published_of(old(self).count_of()) + publish,
    {
        proof {
            use_type_invariant(&*self);
            lemma_step((self.worker + self.count) as nat, self.size as nat);
        }
        let position: usize = if self.position + 1 == self.size {
            0
        } else {
            self.position + 1
        };
        let count: u64 = self.count + 1;
        *self = WorkerTally { worker: self.worker, size: self.size, position, count };
        if count % LOT == 0 {
            LOT
        } else {
            0
        }
    }

    /// What is left to publish when the worker stops.
    pub fn finish(&self) -> (rest: u64)
        ensures
            published_of(self.count_of()) + rest == self.count_of(),
    {
        self.count % LOT
    }
}

/// What a worker publishes in lots is never more than it counted, and falls
/// short of it by less than one lot.
pub proof fn published_in_lots(count: nat)
    ensures
        published_of(count) <= count < published_of(count) + LOT,
        published_of(count) % (LOT as nat) == 0,
{
}

/// The log files that the benchmark reads, in the order in which it reads them.
pub open spec fn benchmark_file_names() -> Seq<Seq<char>> {
    seq!["cisco_asa.log"@, "fortigate.log"@, "paloalto.log"@, "suricata.json"@, "pfsense.log"@]
}

/// The log files that the benchmark reads, in the order in which it reads them.
pub fn benchmark_files() -> (r: Vec<&'static str>)
    ensures
        r@.map_values(|s: &str| s@) == benchmark_file_names(),
{
    let r: Vec<&'static str> = vec![
        "cisco_asa.log",
        "fortigate.log",
        "paloalto.log",
        "suricata.json",
        "pfsense.log",
    ];
    assert(r@.map_values(|s: &str| s@) =~= benchmark_file_names());
    r
}

}
