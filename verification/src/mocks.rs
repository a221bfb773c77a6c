//! A mempool double for tests of callers: it records which calls were
//! made and fails on demand.

use vstd::prelude::*;

use crate::primitives::H256;
use crate::transaction::SignedTransaction;

verus! {

/// The error the double hands back when told to fail.
#[derive(PartialEq, Eq, Structural, Clone, Copy, Debug)]
pub enum MockError {
    ResultFetchFailed,
}

/// A mempool stand-in: flags record the calls made; matching switches
/// make each call fail.
pub struct MempoolInterfaceMock {
    pub add_transaction_called: bool,
    pub add_transaction_should_error: bool,
    pub get_all_called: bool,
    pub get_all_should_error: bool,
    pub contains_transaction_called: bool,
    pub contains_transaction_should_error: bool,
    pub run_called: bool,
    pub run_should_error: bool,
}

impl MempoolInterfaceMock {
    pub fn new() -> (r: MempoolInterfaceMock)
        ensures
            !r.add_transaction_called,
            !r.add_transaction_should_error,
            !r.get_all_called,
            !r.get_all_should_error,
            !r.contains_transaction_called,
            !r.contains_transaction_should_error,
            !r.run_called,
            !r.run_should_error,
    {
        MempoolInterfaceMock {
            add_transaction_called: false,
            add_transaction_should_error: false,
            get_all_called: false,
            get_all_should_error: false,
            contains_transaction_called: false,
            contains_transaction_should_error: false,
            run_called: false,
            run_should_error: false,
        }
    }

    pub fn add_transaction(&mut self, _tx: SignedTransaction) -> (r: Result<(), MockError>)
        ensures
            final(self).add_transaction_called,
            r is Err <==> old(self).add_transaction_should_error,
            *final(self) == (MempoolInterfaceMock { add_transaction_called: true, ..*old(self) }),
    {
        self.add_transaction_called = true;
        if self.add_transaction_should_error {
            Err(MockError::ResultFetchFailed)
        } else {
            Ok(())
        }
    }

    pub fn get_all(&mut self) -> (r: Result<Vec<SignedTransaction>, MockError>)
        ensures
            final(self).get_all_called,
            r is Err <==> old(self).get_all_should_error,
            (r matches Ok(v) ==> v@.len() == 0),
            *final(self) == (MempoolInterfaceMock { get_all_called: true, ..*old(self) }),
    {
        self.get_all_called = true;
        if self.get_all_should_error {
            Err(MockError::ResultFetchFailed)
        } else {
            Ok(Vec::new())
        }
    }

    pub fn contains_transaction(&mut self, _id: &H256) -> (r: Result<bool, MockError>)
        ensures
            final(self).contains_transaction_called,
            r is Err <==> old(self).contains_transaction_should_error,
            (r matches Ok(b) ==> b),
            *final(self) == (MempoolInterfaceMock {
                contains_transaction_called: true,
                ..*old(self)
            }),
    {
        self.contains_transaction_called = true;
        if self.contains_transaction_should_error {
            Err(MockError::ResultFetchFailed)
        } else {
            Ok(true)
        }
    }

    pub fn run(&mut self) -> (r: Result<(), MockError>)
        ensures
            final(self).run_called,
            r is Err <==> old(self).run_should_error,
            *final(self) == (MempoolInterfaceMock { run_called: true, ..*old(self) }),
    {
        self.run_called = true;
        if self.run_should_error {
            Err(MockError::ResultFetchFailed)
        } else {
            Ok(())
        }
    }
}

} // verus!
