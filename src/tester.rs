use vstd::prelude::*;

use rand::Rng;

use crate::client::{Error, TestClient};
use crate::histogram::{counts_of, LatencyHistogram};

verus! {

/// Whether `c` is an ASCII letter or digit.
pub open spec fn is_alphanumeric(c: char) -> bool {
    ('0' <= c && c <= '9') || ('A' <= c && c <= 'Z') || ('a' <= c && c <= 'z')
}

/// Relies on `rand::thread_rng` sampled with `rand::distributions::Alphanumeric`:
/// each character is drawn from `A-Z`, `a-z` and `0-9`, and `take(len)`
/// keeps exactly `len` of the endless draws.
#[verifier::external_body]
fn random_alphanumeric(len: usize) -> (r: String)
    ensures
        r@.len() == len,
        forall|i: int| 0 <= i < len ==> is_alphanumeric(#[trigger] r@[i]),
{
    rand::thread_rng().sample_iter(&rand::distributions::Alphanumeric).take(len).map(char::from).collect()
}

/// Drives a storage client: owns it, so that keys are generated one at a
/// time, and owns the random payload that every write shares.
pub struct Tester<C: TestClient> {
    client: C,
    random_string: String,
}

impl<C: TestClient> Tester<C> {
    /// A driver of `client` with a fresh random payload of `len` letters and
    /// digits.
    pub fn new(client: C, len: usize) -> (r: Self)
        ensures
            r.client_view() == client,
            r.payload_view().len() == len,
            forall|i: int| 0 <= i < len ==> is_alphanumeric(#[trigger] r.payload_view()[i]),
    {
        Tester { client, random_string: random_alphanumeric(len) }
    }

    pub closed spec fn client_view(&self) -> C {
        self.client
    }

    pub closed spec fn payload_view(&self) -> Seq<char> {
        self.random_string@
    }

    /// The payload that every write stores.
    pub fn payload(&self) -> (r: &String)
        ensures
            r@ == self.payload_view(),
    {
        &self.random_string
    }

    /// The client.
    pub fn client(&self) -> (r: &C)
        ensures
            *r == self.client_view(),
    {
        &self.client
    }

    /// Generates the key of the next operation sequence; it differs from
    /// every key generated before.
    pub fn next_key(&mut self) -> (r: String)
        requires
            old(self).client_view().can_issue(),
        ensures
            !old(self).client_view().issued().contains(r@),
            final(self).client_view().issued() == old(self).client_view().issued().insert(r@),
            final(self).payload_view() == old(self).payload_view(),
    {
        self.client.gen_unique_key()
    }
}

/// The value that the smoke test writes, reads back and deletes.
pub fn smoke_value() -> (r: String)
    ensures
        r@ == seq!['H', 'e', 'l', 'l', 'o', ' ', 'W', 'o', 'r', 'l', 'd'],
{
    proof {
        reveal_strlit("Hello World");
    }
    String::from_str("Hello World")
}

/// Why an operation sequence failed.
pub enum SequenceError {
    /// The backend failed an operation.
    Backend(Error),
    /// A read returned something else than what was written.
    Mismatch,
    /// A read after the delete of its key succeeded.
    ReadAfterDelete,
}

/// Judges a write or a delete: its failure fails the sequence.
pub fn check_done(res: Result<(), Error>) -> (r: Result<(), SequenceError>)
    ensures
        match res {
            Ok(()) => r is Ok,
            Err(e) => r matches Err(SequenceError::Backend(e2)) && e2 == e,
        },
{
    match res {
        Ok(()) => Ok(()),
        Err(e) => Err(SequenceError::Backend(e)),
    }
}

/// Judges a read of a key just written with `expected`: it must succeed
/// and return exactly that value.
pub fn check_read_back(expected: &String, res: Result<String, Error>) -> (r: Result<(), SequenceError>)
    ensures
        match res {
            Ok(v) => if v@ == expected@ { r is Ok } else { r matches Err(SequenceError::Mismatch) },
            Err(e) => r matches Err(SequenceError::Backend(e2)) && e2 == e,
        },
{
    match res {
        Ok(v) => {
            if v == *expected {
                Ok(())
            } else {
                Err(SequenceError::Mismatch)
            }
        },
        Err(e) => Err(SequenceError::Backend(e)),
    }
}

/// Judges a read of a key just deleted: it must fail.
pub fn check_absent(res: Result<String, Error>) -> (r: Result<(), SequenceError>)
    ensures
        res is Ok <==> r matches Err(SequenceError::ReadAfterDelete),
        res is Err <==> r is Ok,
{
    match res {
        Ok(_) => Err(SequenceError::ReadAfterDelete),
        Err(_) => Ok(()),
    }
}

/// The latencies of one campaign, in microseconds, per operation.
pub struct CampaignStats {
    pub write: LatencyHistogram,
    pub read: LatencyHistogram,
    pub delete: LatencyHistogram,
}

impl CampaignStats {
    pub open spec fn wf(&self) -> bool {
        self.write.wf() && self.read.wf() && self.delete.wf()
    }

    /// The latencies of a campaign, one entry of each sequence per
    /// completed operation sequence.
    pub fn from_latencies(write: &Vec<u64>, read: &Vec<u64>, delete: &Vec<u64>) -> (r: CampaignStats)
        ensures
            r.wf(),
            r.write@ == counts_of(write@),
            r.read@ == counts_of(read@),
            r.delete@ == counts_of(delete@),
            r.write.count_spec() == write@.len(),
            r.read.count_spec() == read@.len(),
            r.delete.count_spec() == delete@.len(),
    {
        CampaignStats {
            write: LatencyHistogram::from_samples(write),
            read: LatencyHistogram::from_samples(read),
            delete: LatencyHistogram::from_samples(delete),
        }
    }
}

/// What the campaigns are run with.
pub struct Config {
    pub payload_len: usize,
    pub rates: Vec<u64>,
    pub duration_s: u64,
}

impl Config {
    /// A payload of 16 MiB, then 30 s at each of 10, 20, 50, 100, 200, 500
    /// and 1000 operation sequences a second.
    pub fn standard() -> (r: Config)
        ensures
            r.payload_len == 16 * 1024 * 1024,
            r.rates@ == seq![10u64, 20, 50, 100, 200, 500, 1000],
            r.duration_s == 30,
    {
        let rates: Vec<u64> = vec![10, 20, 50, 100, 200, 500, 1000];
        assert(rates@ =~= seq![10u64, 20, 50, 100, 200, 500, 1000]);
        Config { payload_len: 16 * 1024 * 1024, rates, duration_s: 30 }
    }
}

} // verus!
