//! Boundary entry points: the callable surface. Each operation validates
//! its arguments in positional order, delegates to a subsystem, reduces
//! any failure to an `ErrorCode` returned by value, and leaves the
//! failure's diagnostics in the per-thread error context before returning.
//!
//! Subsystems are black boxes to this core: they finish either with a
//! success (possibly carrying a newly minted handle) or with a
//! `(code, message, optional backtrace)` triple, and that outcome reaches
//! the completion half of an entry point as a plain value — on the
//! caller's thread for synchronous work, on a pool thread for
//! asynchronous completions. The contract is the same either way; the
//! thread identity passed in names whichever thread executes the call.

use vstd::prelude::*;
use crate::config::{RuntimeConfig, applied};
use crate::config_json::parse_config;
use crate::error_code::{ErrorCode, invalid_param_code, invalid_param_spec, validate};
use crate::error_context::{ErrorContextStore, ErrorRecord, ErrorRecordView, empty_record_view};
use crate::handles::{HandleAllocator, WalletHandle};
use crate::json_out::{record_json, render_record_json};

verus! {

/// Diagnostic text for an argument rejected by positional validation.
pub open spec fn msg_invalid_parameter() -> Seq<u8> {
    seq![105u8, 110, 118, 97, 108, 105, 100, 32, 112, 97, 114, 97, 109, 101, 116, 101, 114]
}

/// Diagnostic text for a malformed runtime configuration input.
pub open spec fn msg_invalid_configuration() -> Seq<u8> {
    seq![
        105u8, 110, 118, 97, 108, 105, 100, 32, 114, 117, 110, 116, 105, 109, 101, 32, 99, 111,
        110, 102, 105, 103, 117, 114, 97, 116, 105, 111, 110,
    ]
}

/// Diagnostic text for a handle that names no live wallet.
pub open spec fn msg_invalid_wallet_handle() -> Seq<u8> {
    seq![
        105u8, 110, 118, 97, 108, 105, 100, 32, 119, 97, 108, 108, 101, 116, 32, 104, 97, 110,
        100, 108, 101,
    ]
}

/// Diagnostic text for a namespace that cannot issue one more handle.
pub open spec fn msg_handles_exhausted() -> Seq<u8> {
    seq![
        104u8, 97, 110, 100, 108, 101, 32, 115, 112, 97, 99, 101, 32, 101, 120, 104, 97, 117,
        115, 116, 101, 100,
    ]
}

fn make_msg_invalid_parameter() -> (v: Vec<u8>)
    ensures
        v@ == msg_invalid_parameter(),
{
    let v = vec![
        105u8, 110, 118, 97, 108, 105, 100, 32, 112, 97, 114, 97, 109, 101, 116, 101, 114,
    ];
    proof {
        assert(v@ =~= msg_invalid_parameter());
    }
    v
}

fn make_msg_invalid_configuration() -> (v: Vec<u8>)
    ensures
        v@ == msg_invalid_configuration(),
{
    let v = vec![
        105u8, 110, 118, 97, 108, 105, 100, 32, 114, 117, 110, 116, 105, 109, 101, 32, 99, 111,
        110, 102, 105, 103, 117, 114, 97, 116, 105, 111, 110,
    ];
    proof {
        assert(v@ =~= msg_invalid_configuration());
    }
    v
}

fn make_msg_invalid_wallet_handle() -> (v: Vec<u8>)
    ensures
        v@ == msg_invalid_wallet_handle(),
{
    let v = vec![
        105u8, 110, 118, 97, 108, 105, 100, 32, 119, 97, 108, 108, 101, 116, 32, 104, 97, 110,
        100, 108, 101,
    ];
    proof {
        assert(v@ =~= msg_invalid_wallet_handle());
    }
    v
}

fn make_msg_handles_exhausted() -> (v: Vec<u8>)
    ensures
        v@ == msg_handles_exhausted(),
{
    let v = vec![
        104u8, 97, 110, 100, 108, 101, 32, 115, 112, 97, 99, 101, 32, 101, 120, 104, 97, 117,
        115, 116, 101, 100,
    ];
    proof {
        assert(v@ =~= msg_handles_exhausted());
    }
    v
}

/// The record a failure leaves behind: its message always, its backtrace
/// only while capture is enabled — never a misleading empty one when it
/// is off.
pub open spec fn failure_record_view(
    collect: bool,
    message: Seq<u8>,
    backtrace: Option<Seq<u8>>,
) -> ErrorRecordView {
    ErrorRecordView { message, backtrace: if collect { backtrace } else { None } }
}

/// With capture disabled, no failure record ever carries a backtrace.
pub proof fn lemma_backtrace_absent_when_disabled(message: Seq<u8>, backtrace: Option<Seq<u8>>)
    ensures
        failure_record_view(false, message, backtrace).backtrace is None,
{
}

pub open spec fn opt_bytes_view(o: Option<Vec<u8>>) -> Option<Seq<u8>> {
    match o {
        Some(b) => Some(b@),
        None => None,
    }
}

/// What a subsystem collaborator reports when it fails: its mapped code
/// (never the success value), a human-readable message, and a backtrace
/// if it captured one.
pub struct SubsystemFailure {
    pub code: ErrorCode,
    pub message: Vec<u8>,
    pub backtrace: Option<Vec<u8>>,
}

/// Everything this core owns: the configuration store, the per-thread
/// error context, and one handle namespace per resource class.
pub struct Runtime {
    pub config: RuntimeConfig,
    pub errors: ErrorContextStore,
    pub wallets: HandleAllocator,
    pub pools: HandleAllocator,
    pub commands: HandleAllocator,
    pub storages: HandleAllocator,
    pub searches: HandleAllocator,
}

/// The four namespaces a wallet operation never touches agree between two
/// states.
pub open spec fn other_namespaces_unchanged(a: Runtime, b: Runtime) -> bool {
    &&& a.pools == b.pools
    &&& a.commands == b.commands
    &&& a.storages == b.storages
    &&& a.searches == b.searches
}

impl Runtime {
    pub open spec fn wf(&self) -> bool {
        &&& self.wallets.wf()
        &&& self.pools.wf()
        &&& self.commands.wf()
        &&& self.storages.wf()
        &&& self.searches.wf()
    }

    /// The record the executing thread would retrieve right now: its own
    /// most recent failure, or the empty payload if it never failed.
    pub open spec fn current_error_view(&self, tid: u64) -> ErrorRecordView {
        match self.errors.spec_record_for(tid) {
            Some(v) => v,
            None => empty_record_view(),
        }
    }

    /// A fresh core: default configuration, no error records, nothing
    /// live in any namespace.
    pub fn new() -> (r: Runtime)
        ensures
            r.wf(),
            r.config.crypto_thread_pool_size == 4,
            !r.config.collect_backtrace,
            forall|t: u64| r.errors.spec_record_for(t) is None,
            forall|h: i32| !r.wallets.spec_is_live(h),
            forall|h: i32| !r.pools.spec_is_live(h),
            forall|h: i32| !r.commands.spec_is_live(h),
            forall|h: i32| !r.storages.spec_is_live(h),
            forall|h: i32| !r.searches.spec_is_live(h),
            r.wallets.spec_can_allocate(),
    {
        Runtime {
            config: RuntimeConfig::new(),
            errors: ErrorContextStore::new(),
            wallets: HandleAllocator::new(),
            pools: HandleAllocator::new(),
            commands: HandleAllocator::new(),
            storages: HandleAllocator::new(),
            searches: HandleAllocator::new(),
        }
    }

    /// Write a failure's diagnostics for the executing thread. Only that
    /// thread's record changes, and the backtrace is kept only while
    /// capture is enabled.
    pub fn record_failure(&mut self, tid: u64, message: Vec<u8>, backtrace: Option<Vec<u8>>)
        ensures
            final(self).errors.spec_record_for(tid) == Some(
                failure_record_view(
                    old(self).config.collect_backtrace,
                    message@,
                    opt_bytes_view(backtrace),
                ),
            ),
            forall|t: u64|
                t != tid ==> final(self).errors.spec_record_for(t) == old(
                    self,
                ).errors.spec_record_for(t),
            final(self).config == old(self).config,
            final(self).wallets == old(self).wallets,
            other_namespaces_unchanged(*old(self), *final(self)),
    {
        let bt = if self.config.collect_backtrace {
            backtrace
        } else {
            None
        };
        self.errors.set_error(tid, ErrorRecord { message, backtrace: bt });
    }

    /// Boundary entry point: set the runtime configuration. An absent
    /// argument is rejected with the position-1 code; a present but
    /// malformed one with the invalid-structure code. Either rejection
    /// leaves the configuration alone and writes a diagnostic for the
    /// executing thread. A well-formed input is applied and the prior
    /// diagnostics stay.
    pub fn indy_set_runtime_config(&mut self, tid: u64, config: Option<&[u8]>) -> (r: ErrorCode)
        ensures
            final(self).wallets == old(self).wallets,
            other_namespaces_unchanged(*old(self), *final(self)),
            match config {
                None => {
                    &&& r == invalid_param_spec(1)
                    &&& final(self).config == old(self).config
                    &&& final(self).errors.spec_record_for(tid) == Some(
                        ErrorRecordView { message: msg_invalid_parameter(), backtrace: None },
                    )
                    &&& forall|t: u64|
                        t != tid ==> final(self).errors.spec_record_for(t) == old(
                            self,
                        ).errors.spec_record_for(t)
                },
                Some(bytes) => match parse_config(bytes@) {
                    Some(d) => {
                        &&& r == ErrorCode::Success
                        &&& final(self).config == applied(old(self).config, d)
                        &&& final(self).errors == old(self).errors
                    },
                    None => {
                        &&& r == ErrorCode::CommonInvalidStructure
                        &&& final(self).config == old(self).config
                        &&& final(self).errors.spec_record_for(tid) == Some(
                            ErrorRecordView {
                                message: msg_invalid_configuration(),
                                backtrace: None,
                            },
                        )
                        &&& forall|t: u64|
                            t != tid ==> final(self).errors.spec_record_for(t) == old(
                                self,
                            ).errors.spec_record_for(t)
                    },
                },
            },
    {
        match config {
            None => {
                self.record_failure(tid, make_msg_invalid_parameter(), None);
                invalid_param_code(1)
            },
            Some(bytes) => {
                let code = self.config.apply(bytes);
                match code {
                    ErrorCode::Success => ErrorCode::Success,
                    _ => {
                        self.record_failure(tid, make_msg_invalid_configuration(), None);
                        code
                    },
                }
            },
        }
    }

    /// Boundary entry point: the most recent error on the executing
    /// thread as its JSON payload — the empty payload if that thread
    /// never failed, never another thread's record. Reading does not
    /// consume the record.
    pub fn indy_get_current_error(&self, tid: u64) -> (r: Vec<u8>)
        ensures
            r@ == record_json(self.current_error_view(tid)),
    {
        match self.errors.get(tid) {
            Some(rec) => {
                let bt = match &rec.backtrace {
                    Some(b) => Some(b.as_slice()),
                    None => None,
                };
                render_record_json(rec.message.as_slice(), bt)
            },
            None => {
                let empty: Vec<u8> = Vec::new();
                render_record_json(empty.as_slice(), None)
            },
        }
    }

    /// Request half of the wallet-open entry point: positional
    /// validation, before any subsystem work. An absent argument at
    /// position k is rejected with the position-k code and a diagnostic,
    /// and nothing else happens — no namespace changes, no configuration
    /// change, no subsystem side effect.
    pub fn wallet_open_request(
        &mut self,
        tid: u64,
        config: Option<&[u8]>,
        credentials: Option<&[u8]>,
    ) -> (r: Result<(), ErrorCode>)
        ensures
            final(self).config == old(self).config,
            final(self).wallets == old(self).wallets,
            other_namespaces_unchanged(*old(self), *final(self)),
            match (config, credentials) {
                (Some(_), Some(_)) => r is Ok && final(self).errors == old(self).errors,
                (None, _) => {
                    &&& r == Result::<(), ErrorCode>::Err(invalid_param_spec(1))
                    &&& final(self).errors.spec_record_for(tid) == Some(
                        ErrorRecordView { message: msg_invalid_parameter(), backtrace: None },
                    )
                    &&& forall|t: u64|
                        t != tid ==> final(self).errors.spec_record_for(t) == old(
                            self,
                        ).errors.spec_record_for(t)
                },
                (Some(_), None) => {
                    &&& r == Result::<(), ErrorCode>::Err(invalid_param_spec(2))
                    &&& final(self).errors.spec_record_for(tid) == Some(
                        ErrorRecordView { message: msg_invalid_parameter(), backtrace: None },
                    )
                    &&& forall|t: u64|
                        t != tid ==> final(self).errors.spec_record_for(t) == old(
                            self,
                        ).errors.spec_record_for(t)
                },
            },
    {
        match validate(1, config.is_some()) {
            Err(e) => {
                self.record_failure(tid, make_msg_invalid_parameter(), None);
                return Err(e);
            },
            Ok(()) => {},
        }
        match validate(2, credentials.is_some()) {
            Err(e) => {
                self.record_failure(tid, make_msg_invalid_parameter(), None);
                return Err(e);
            },
            Ok(()) => {},
        }
        Ok(())
    }

    /// Completion half of the wallet-open entry point: the subsystem's
    /// outcome arrives as a value, on whichever thread observed it. On
    /// success a wallet handle is minted — never 0, never a value live in
    /// the namespace — and the prior diagnostics stay; on failure the
    /// failure's diagnostics are written for the executing thread, its
    /// code is returned, and the namespace is untouched.
    pub fn wallet_open_complete(
        &mut self,
        tid: u64,
        outcome: Result<(), SubsystemFailure>,
    ) -> (r: (ErrorCode, WalletHandle))
        requires
            old(self).wf(),
            match outcome {
                Err(f) => f.code != ErrorCode::Success,
                Ok(_) => true,
            },
    ensures
            final(self).wf(),
            final(self).config == old(self).config,
            other_namespaces_unchanged(*old(self), *final(self)),
            match outcome {
                Ok(_) => {
                    if old(self).wallets.spec_can_allocate() {
                        &&& r.0 == ErrorCode::Success
                        &&& r.1.0 != 0
                        &&& !old(self).wallets.spec_is_live(r.1.0)
                        &&& final(self).wallets.spec_is_live(r.1.0)
                        &&& forall|h: i32|
                            final(self).wallets.spec_is_live(h) <==> (old(
                                self,
                            ).wallets.spec_is_live(h) || h == r.1.0)
                        &&& final(self).errors == old(self).errors
                    } else {
                        &&& r.0 == ErrorCode::CommonInvalidState
                        &&& r.1.0 == 0
                        &&& final(self).wallets == old(self).wallets
                        &&& final(self).errors.spec_record_for(tid) == Some(
                            ErrorRecordView {
                                message: msg_handles_exhausted(),
                                backtrace: None,
                            },
                        )
                        &&& forall|t: u64|
                            t != tid ==> final(self).errors.spec_record_for(t) == old(
                                self,
                            ).errors.spec_record_for(t)
                    }
                },
                Err(f) => {
                    &&& r.0 == f.code
                    &&& r.1.0 == 0
                    &&& final(self).wallets == old(self).wallets
                    &&& final(self).errors.spec_record_for(tid) == Some(
                        failure_record_view(
                            old(self).config.collect_backtrace,
                            f.message@,
                            opt_bytes_view(f.backtrace),
                        ),
                    )
                    &&& forall|t: u64|
                        t != tid ==> final(self).errors.spec_record_for(t) == old(
                            self,
                        ).errors.spec_record_for(t)
                },
            },
    {
        match outcome {
            Ok(_) => {
                if self.wallets.can_allocate() {
                    let h = self.wallets.allocate();
                    (ErrorCode::Success, WalletHandle(h))
                } else {
                    self.record_failure(tid, make_msg_handles_exhausted(), None);
                    (ErrorCode::CommonInvalidState, WalletHandle(0))
                }
            },
            Err(f) => {
                let code = f.code;
                self.record_failure(tid, f.message, f.backtrace);
                (code, WalletHandle(0))
            },
        }
    }

    /// Boundary entry point: close a wallet. A live handle is released —
    /// its value may be reused by a later open — and the prior
    /// diagnostics stay; a handle that names no live wallet is answered
    /// with the wallet-invalid-handle code, a diagnostic, and no change
    /// to the namespace.
    pub fn wallet_close(&mut self, tid: u64, handle: WalletHandle) -> (r: ErrorCode)
        requires
            old(self).wf(),
        ensures
            final(self).wf(),
            final(self).config == old(self).config,
            other_namespaces_unchanged(*old(self), *final(self)),
            if old(self).wallets.spec_is_live(handle.0) {
                &&& r == ErrorCode::Success
                &&& !final(self).wallets.spec_is_live(handle.0)
                &&& forall|h: i32|
                    final(self).wallets.spec_is_live(h) <==> (old(self).wallets.spec_is_live(h)
                        && h != handle.0)
                &&& final(self).errors == old(self).errors
            } else {
                &&& r == ErrorCode::WalletInvalidHandle
                &&& final(self).wallets == old(self).wallets
                &&& final(self).errors.spec_record_for(tid) == Some(
                    ErrorRecordView { message: msg_invalid_wallet_handle(), backtrace: None },
                )
                &&& forall|t: u64|
                    t != tid ==> final(self).errors.spec_record_for(t) == old(
                        self,
                    ).errors.spec_record_for(t)
            },
    {
        if self.wallets.is_live(handle.0) {
            self.wallets.release(handle.0);
            ErrorCode::Success
        } else {
            self.record_failure(tid, make_msg_invalid_wallet_handle(), None);
            ErrorCode::WalletInvalidHandle
        }
    }
}

} // verus!
