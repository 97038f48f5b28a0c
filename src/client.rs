use vstd::prelude::*;

use crate::decimal::{dec, lemma_dec_injective, push_decimal};

verus! {

#[verifier::external_type_specification]
#[verifier::external_body]
pub struct ExIoError(std::io::Error);

/// Relies on the `Display` impl of `std::io::Error`: the text that describes
/// the failure. Nothing is promised of that text.
#[verifier::external_body]
fn io_error_text(err: &std::io::Error) -> (r: String) {
    err.to_string()
}

/// A failure of a storage backend: what was being done, and why it failed.
#[derive(Debug)]
pub struct Error {
    pub msg: String,
}

/// The message of an error raised while doing `prefix`, caused by `cause`.
pub open spec fn error_message(prefix: Seq<char>, cause: Seq<char>) -> Seq<char> {
    prefix + seq![':', ' '] + cause
}

/// The context of a backend failure: the operation and the key it was on.
pub open spec fn op_context(op: Seq<char>, key: Seq<char>) -> Seq<char> {
    op + seq![' '] + key
}

impl Error {
    /// An error raised while doing `prefix`, caused by `cause`.
    pub fn with_cause(prefix: &str, cause: &str) -> (r: Error)
        ensures
            r.msg@ == error_message(prefix@, cause@),
    {
        let mut msg = prefix.to_owned();
        msg.append(": ");
        msg.append(cause);
        proof {
            reveal_strlit(": ");
        }
        assert(msg@ =~= error_message(prefix@, cause@));
        Error { msg }
    }

    /// An error raised while doing `prefix`, caused by the I/O failure `err`.
    pub fn from_io_error(prefix: &str, err: std::io::Error) -> (r: Error)
        ensures
            exists|cause: Seq<char>| r.msg@ == error_message(prefix@, cause),
    {
        let cause = io_error_text(&err);
        Error::with_cause(prefix, cause.as_str())
    }

    /// An error raised by the operation `op` on `key`, caused by the I/O
    /// failure `err`.
    pub fn backend(op: &str, key: &str, err: std::io::Error) -> (r: Error)
        ensures
            exists|cause: Seq<char>| r.msg@ == error_message(op_context(op@, key@), cause),
    {
        let mut context = op.to_owned();
        context.append(" ");
        context.append(key);
        proof {
            reveal_strlit(" ");
        }
        assert(context@ =~= op_context(op@, key@));
        Error::from_io_error(context.as_str(), err)
    }
}

/// A storage client: the stateful side of a backend, which hands out keys.
/// Each key it returns differs from every key it returned before.
pub trait TestClient {
    /// The keys handed out so far.
    spec fn issued(&self) -> Set<Seq<char>>;

    /// Whether another key can be handed out.
    spec fn can_issue(&self) -> bool;

    /// Generates a key never returned before by this client.
    fn gen_unique_key(&mut self) -> (r: String)
        requires
            old(self).can_issue(),
        ensures
            !old(self).issued().contains(r@),
            final(self).issued() == old(self).issued().insert(r@),
    ;
}

/// The key that a local-filesystem client with `prefix` hands out at its
/// `i`-th call: the prefix followed by `i` in decimal.
pub open spec fn key_for(prefix: Seq<char>, i: nat) -> Seq<char> {
    prefix + dec(i)
}

/// The directory a local-filesystem client uses in the process `pid`.
pub open spec fn prefix_for(pid: nat) -> Seq<char> {
    seq!['/', 't', 'm', 'p', '/', 'i', 'o', 't', 'e', 's', 't', '_'] + dec(pid) + seq!['/']
}

/// A storage client that keeps each object in a file under a directory of
/// its own; keys are paths in that directory.
pub struct LocalFsClient {
    prefix: String,
    auto_increment: u32,
}

/// The operation handler of `LocalFsClient`; it holds no state.
pub struct LocalFsClientHandler;

impl LocalFsClient {
    /// A client for the process `pid`, which has handed out no key yet.
    pub fn new(pid: u32) -> (r: LocalFsClient)
        ensures
            r.prefix_view() == prefix_for(pid as nat),
            r.next_index() == 0,
    {
        let mut prefix = String::from_str("/tmp/iotest_");
        push_decimal(&mut prefix, pid as u64);
        prefix.append("/");
        proof {
            reveal_strlit("/tmp/iotest_");
            reveal_strlit("/");
        }
        assert(prefix@ =~= prefix_for(pid as nat));
        LocalFsClient { prefix, auto_increment: 0 }
    }

    pub closed spec fn prefix_view(&self) -> Seq<char> {
        self.prefix@
    }

    /// The number of keys handed out so far.
    pub closed spec fn next_index(&self) -> nat {
        self.auto_increment as nat
    }

    /// The directory that holds the objects.
    pub fn prefix(&self) -> (r: &str)
        ensures
            r@ == self.prefix_view(),
    {
        self.prefix.as_str()
    }

    /// The number of keys handed out so far.
    pub fn issued_count(&self) -> (r: u32)
        ensures
            r as nat == self.next_index(),
    {
        self.auto_increment
    }

    /// The path of the next object: the directory followed by the number of
    /// keys handed out so far, which then grows by one.
    pub fn next_path(&mut self) -> (r: String)
        requires
            old(self).next_index() < u32::MAX,
        ensures
            r@ == key_for(old(self).prefix_view(), old(self).next_index()),
            final(self).prefix_view() == old(self).prefix_view(),
            final(self).next_index() == old(self).next_index() + 1,
    {
        let mut result = self.prefix.clone();
        push_decimal(&mut result, self.auto_increment as u64);
        self.auto_increment = self.auto_increment + 1;
        result
    }

    /// The stateless handler that performs operations for this client.
    pub fn handler() -> (r: LocalFsClientHandler) {
        LocalFsClientHandler
    }
}

/// Two calls of one local-filesystem client never give the same key.
pub proof fn lemma_keys_distinct(prefix: Seq<char>, i: nat, j: nat)
    requires
        i != j,
    ensures
        key_for(prefix, i) != key_for(prefix, j),
{
    if key_for(prefix, i) == key_for(prefix, j) {
        assert(dec(i) =~= key_for(prefix, i).subrange(prefix.len() as int, key_for(prefix, i).len() as int));
        assert(dec(j) =~= key_for(prefix, j).subrange(prefix.len() as int, key_for(prefix, j).len() as int));
        lemma_dec_injective(i, j);
    }
}

impl TestClient for LocalFsClient {
    open spec fn issued(&self) -> Set<Seq<char>> {
        Set::new(|k: Seq<char>| exists|i: nat| i < self.next_index() && k == key_for(self.prefix_view(), i))
    }

    open spec fn can_issue(&self) -> bool {
        self.next_index() < u32::MAX
    }

    fn gen_unique_key(&mut self) -> (r: String)
    {
        let result = self.next_path();
        let ghost n = old(self).next_index();
        let ghost p = old(self).prefix_view();
        assert forall|i: nat| i < n implies key_for(p, i) != result@ by {
            lemma_keys_distinct(p, i, n);
        }
        assert(final(self).issued() =~= old(self).issued().insert(result@));
        result
    }
}

} // verus!
