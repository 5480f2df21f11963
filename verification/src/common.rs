//! The runtime that every generated wrapper rests on: status codes and
//! errors, the managed resource with its release protocol, the box that hands
//! a callback's state to foreign code, and the channel vocabulary.

use crate::text::{int_to_text, signed_decimal};
use std::mem::ManuallyDrop;
use std::ops::Deref;
use vstd::prelude::*;
use vstd::string::StringExecFns;

verus! {

/// The kinds of failure that the wrapped library reports through a status code.
#[derive(Debug, Clone, Copy, PartialEq, Eq, Structural)]
pub enum AeronErrorType {
    NullOrNotConnected,
    ClientErrorDriverTimeout,
    ClientErrorClientTimeout,
    ClientErrorConductorServiceTimeout,
    ClientErrorBufferFull,
    PublicationBackPressured,
    PublicationAdminAction,
    PublicationClosed,
    PublicationMaxPositionExceeded,
    PublicationError,
    TimedOut,
    Unknown(i32),
}

impl AeronErrorType {
    /// The status code that stands for this kind.
    pub open spec fn spec_code(self) -> int {
        match self {
            AeronErrorType::NullOrNotConnected => -1,
            AeronErrorType::ClientErrorDriverTimeout => -1000,
            AeronErrorType::ClientErrorClientTimeout => -1001,
            AeronErrorType::ClientErrorConductorServiceTimeout => -1002,
            AeronErrorType::ClientErrorBufferFull => -1003,
            AeronErrorType::PublicationBackPressured => -2,
            AeronErrorType::PublicationAdminAction => -3,
            AeronErrorType::PublicationClosed => -4,
            AeronErrorType::PublicationMaxPositionExceeded => -5,
            AeronErrorType::PublicationError => -6,
            AeronErrorType::TimedOut => -234324,
            AeronErrorType::Unknown(code) => code as int,
        }
    }

    /// The kind that a status code stands for. A code without a kind of its
    /// own is carried by `Unknown`.
    pub open spec fn spec_from_code(code: int) -> AeronErrorType {
        if code == -1 {
            AeronErrorType::NullOrNotConnected
        } else if code == -1000 {
            AeronErrorType::ClientErrorDriverTimeout
        } else if code == -1001 {
            AeronErrorType::ClientErrorClientTimeout
        } else if code == -1002 {
            AeronErrorType::ClientErrorConductorServiceTimeout
        } else if code == -1003 {
            AeronErrorType::ClientErrorBufferFull
        } else if code == -2 {
            AeronErrorType::PublicationBackPressured
        } else if code == -3 {
            AeronErrorType::PublicationAdminAction
        } else if code == -4 {
            AeronErrorType::PublicationClosed
        } else if code == -5 {
            AeronErrorType::PublicationMaxPositionExceeded
        } else if code == -6 {
            AeronErrorType::PublicationError
        } else if code == -234324 {
            AeronErrorType::TimedOut
        } else {
            AeronErrorType::Unknown(code as i32)
        }
    }

    /// The words that describe this kind.
    pub open spec fn spec_to_string(self) -> Seq<char> {
        match self {
            AeronErrorType::NullOrNotConnected => "Null Value or Not Connected"@,
            AeronErrorType::ClientErrorDriverTimeout => "Client Error Driver Timeout"@,
            AeronErrorType::ClientErrorClientTimeout => "Client Error Client Timeout"@,
            AeronErrorType::ClientErrorConductorServiceTimeout => "Client Error Conductor Service Timeout"@,
            AeronErrorType::ClientErrorBufferFull => "Client Error Buffer Full"@,
            AeronErrorType::PublicationBackPressured => "Publication Back Pressured"@,
            AeronErrorType::PublicationAdminAction => "Publication Admin Action"@,
            AeronErrorType::PublicationClosed => "Publication Closed"@,
            AeronErrorType::PublicationMaxPositionExceeded => "Publication Max Position Exceeded"@,
            AeronErrorType::PublicationError => "Publication Error"@,
            AeronErrorType::TimedOut => "Timed Out"@,
            AeronErrorType::Unknown(_) => "Unknown Error"@,
        }
    }

    /// The name of the variant, followed for `Unknown` by its code in
    /// round brackets.
    pub open spec fn spec_debug(self) -> Seq<char> {
        match self {
            AeronErrorType::NullOrNotConnected => "NullOrNotConnected"@,
            AeronErrorType::ClientErrorDriverTimeout => "ClientErrorDriverTimeout"@,
            AeronErrorType::ClientErrorClientTimeout => "ClientErrorClientTimeout"@,
            AeronErrorType::ClientErrorConductorServiceTimeout => "ClientErrorConductorServiceTimeout"@,
            AeronErrorType::ClientErrorBufferFull => "ClientErrorBufferFull"@,
            AeronErrorType::PublicationBackPressured => "PublicationBackPressured"@,
            AeronErrorType::PublicationAdminAction => "PublicationAdminAction"@,
            AeronErrorType::PublicationClosed => "PublicationClosed"@,
            AeronErrorType::PublicationMaxPositionExceeded => "PublicationMaxPositionExceeded"@,
            AeronErrorType::PublicationError => "PublicationError"@,
            AeronErrorType::TimedOut => "TimedOut"@,
            AeronErrorType::Unknown(code) => "Unknown("@ + signed_decimal(code as int) + ")"@,
        }
    }

    pub fn code(&self) -> (code: i32)
        ensures
            code == self.spec_code(),
    {
        match self {
            AeronErrorType::NullOrNotConnected => -1,
            AeronErrorType::ClientErrorDriverTimeout => -1000,
            AeronErrorType::ClientErrorClientTimeout => -1001,
            AeronErrorType::ClientErrorConductorServiceTimeout => -1002,
            AeronErrorType::ClientErrorBufferFull => -1003,
            AeronErrorType::PublicationBackPressured => -2,
            AeronErrorType::PublicationAdminAction => -3,
            AeronErrorType::PublicationClosed => -4,
            AeronErrorType::PublicationMaxPositionExceeded => -5,
            AeronErrorType::PublicationError => -6,
            AeronErrorType::TimedOut => -234324,
            AeronErrorType::Unknown(code) => *code,
        }
    }

    pub fn is_back_pressured(&self) -> (r: bool)
        ensures
            r == (*self == AeronErrorType::PublicationBackPressured),
    {
        match self {
            AeronErrorType::PublicationBackPressured => true,
            _ => false,
        }
    }

    pub fn is_admin_action(&self) -> (r: bool)
        ensures
            r == (*self == AeronErrorType::PublicationAdminAction),
    {
        match self {
            AeronErrorType::PublicationAdminAction => true,
            _ => false,
        }
    }

    pub fn is_back_pressured_or_admin_action(&self) -> (r: bool)
        ensures
            r == (*self == AeronErrorType::PublicationBackPressured || *self
                == AeronErrorType::PublicationAdminAction),
    {
        self.is_back_pressured() || self.is_admin_action()
    }

    pub fn from_code(code: i32) -> (kind: AeronErrorType)
        ensures
            kind == Self::spec_from_code(code as int),
            kind.spec_code() == code,
    {
        if code == -1 {
            AeronErrorType::NullOrNotConnected
        } else if code == -1000 {
            AeronErrorType::ClientErrorDriverTimeout
        } else if code == -1001 {
            AeronErrorType::ClientErrorClientTimeout
        } else if code == -1002 {
            AeronErrorType::ClientErrorConductorServiceTimeout
        } else if code == -1003 {
            AeronErrorType::ClientErrorBufferFull
        } else if code == -2 {
            AeronErrorType::PublicationBackPressured
        } else if code == -3 {
            AeronErrorType::PublicationAdminAction
        } else if code == -4 {
            AeronErrorType::PublicationClosed
        } else if code == -5 {
            AeronErrorType::PublicationMaxPositionExceeded
        } else if code == -6 {
            AeronErrorType::PublicationError
        } else if code == -234324 {
            AeronErrorType::TimedOut
        } else {
            AeronErrorType::Unknown(code)
        }
    }

    pub fn to_string(&self) -> (words: &'static str)
        ensures
            words@ == self.spec_to_string(),
    {
        match self {
            AeronErrorType::NullOrNotConnected => "Null Value or Not Connected",
            AeronErrorType::ClientErrorDriverTimeout => "Client Error Driver Timeout",
            AeronErrorType::ClientErrorClientTimeout => "Client Error Client Timeout",
            AeronErrorType::ClientErrorConductorServiceTimeout => "Client Error Conductor Service Timeout",
            AeronErrorType::ClientErrorBufferFull => "Client Error Buffer Full",
            AeronErrorType::PublicationBackPressured => "Publication Back Pressured",
            AeronErrorType::PublicationAdminAction => "Publication Admin Action",
            AeronErrorType::PublicationClosed => "Publication Closed",
            AeronErrorType::PublicationMaxPositionExceeded => "Publication Max Position Exceeded",
            AeronErrorType::PublicationError => "Publication Error",
            AeronErrorType::TimedOut => "Timed Out",
            AeronErrorType::Unknown(_) => "Unknown Error",
        }
    }

    /// The variant as it is written in source, `Unknown` with its code.
    pub fn debug_text(&self) -> (r: String)
        ensures
            r@ == self.spec_debug(),
    {
        match self {
            AeronErrorType::NullOrNotConnected => String::from_str("NullOrNotConnected"),
            AeronErrorType::ClientErrorDriverTimeout => String::from_str("ClientErrorDriverTimeout"),
            AeronErrorType::ClientErrorClientTimeout => String::from_str("ClientErrorClientTimeout"),
            AeronErrorType::ClientErrorConductorServiceTimeout => String::from_str(
                "ClientErrorConductorServiceTimeout",
            ),
            AeronErrorType::ClientErrorBufferFull => String::from_str("ClientErrorBufferFull"),
            AeronErrorType::PublicationBackPressured => String::from_str("PublicationBackPressured"),
            AeronErrorType::PublicationAdminAction => String::from_str("PublicationAdminAction"),
            AeronErrorType::PublicationClosed => String::from_str("PublicationClosed"),
            AeronErrorType::PublicationMaxPositionExceeded => String::from_str(
                "PublicationMaxPositionExceeded",
            ),
            AeronErrorType::PublicationError => String::from_str("PublicationError"),
            AeronErrorType::TimedOut => String::from_str("TimedOut"),
            AeronErrorType::Unknown(code) => {
                let mut r = String::from_str("Unknown(");
                let digits = int_to_text(*code as i64);
                r.append(digits.as_str());
                r.append(")");
                r
            },
        }
    }
}

/// Every status code is the code of the kind that it stands for.
pub proof fn lemma_code_of_kind(code: i32)
    ensures
        AeronErrorType::spec_from_code(code as int).spec_code() == code,
{
}

/// A kind other than `Unknown` is the kind that its own code stands for.
pub proof fn lemma_kind_of_code(kind: AeronErrorType)
    requires
        !(kind is Unknown),
    ensures
        AeronErrorType::spec_from_code(kind.spec_code()) == kind,
{
}

/// An error of the wrapped library: the raw status code that it returned.
#[derive(Debug, Clone, Copy, PartialEq, Eq, Structural)]
pub struct AeronCError {
    pub code: i32,
}

impl AeronCError {
    /// What `to_text` writes: the code, then the kind.
    pub open spec fn spec_text(self) -> Seq<char> {
        "Aeron error "@ + signed_decimal(self.code as int) + ": "@ + AeronErrorType::spec_from_code(
            self.code as int,
        ).spec_debug()
    }

    /// The error that carries `code`.
    pub fn from_code(code: i32) -> (e: AeronCError)
        ensures
            e.code == code,
    {
        AeronCError { code }
    }

    /// The error that carries the code of `kind`.
    pub fn from_kind(kind: AeronErrorType) -> (e: AeronCError)
        ensures
            e.code == kind.spec_code(),
    {
        AeronCError { code: kind.code() }
    }

    pub fn kind(&self) -> (kind: AeronErrorType)
        ensures
            kind == AeronErrorType::spec_from_code(self.code as int),
    {
        AeronErrorType::from_code(self.code)
    }

    pub fn is_back_pressured(&self) -> (r: bool)
        ensures
            r == (self.code == -2),
    {
        self.kind().is_back_pressured()
    }

    pub fn is_admin_action(&self) -> (r: bool)
        ensures
            r == (self.code == -3),
    {
        self.kind().is_admin_action()
    }

    pub fn is_back_pressured_or_admin_action(&self) -> (r: bool)
        ensures
            r == (self.code == -2 || self.code == -3),
    {
        self.kind().is_back_pressured_or_admin_action()
    }

    /// The error in words: `Aeron error `, the code, a colon, and the kind.
    pub fn to_text(&self) -> (r: String)
        ensures
            r@ == self.spec_text(),
    {
        let mut r = String::from_str("Aeron error ");
        let digits = int_to_text(self.code as i64);
        r.append(digits.as_str());
        r.append(": ");
        let kind = self.kind().debug_text();
        r.append(kind.as_str());
        r
    }
}

/// What a managed resource is, to its contracts.
pub struct ResourceState<T, D> {
    /// The raw handle, `None` once it is cleared.
    pub resource: Option<T>,
    /// Whether a release procedure is still held.
    pub has_cleanup: bool,
    /// Whether the handle's own storage is given up at the end of scope.
    pub cleanup_struct: bool,
    /// Whether the handle belongs to someone else.
    pub borrowed: bool,
    /// The latch: a release has been attempted.
    pub close_already_called: bool,
    /// Whether there is a probe that tells if the handle was closed elsewhere.
    pub has_probe: bool,
    /// Whether the end of scope releases even a borrowed resource.
    pub auto_close: bool,
    /// The values that are retained, in the order in which they came.
    pub dependencies: Seq<D>,
    /// How often the release procedure has been invoked.
    pub cleanup_calls: nat,
}

impl<T, D> ResourceState<T, D> {
    /// What holds of every managed resource.
    pub open spec fn wf(self) -> bool {
        &&& self.borrowed ==> !self.has_cleanup
        &&& self.close_already_called ==> !self.has_cleanup
        &&& self.cleanup_calls <= 1
        &&& self.cleanup_calls == 1 ==> self.close_already_called && !self.borrowed
    }

    /// Whether an explicit release asks the probe.
    pub open spec fn release_consults_probe(self) -> bool {
        !self.close_already_called && self.has_probe && self.resource is Some
    }

    /// Whether an explicit release invokes the release procedure, given the
    /// probe's answer.
    pub open spec fn release_invokes_cleanup(self, already_closed: bool) -> bool {
        !self.close_already_called && self.has_cleanup && self.resource is Some && !already_closed
    }

    /// The state after an explicit release in which the probe answered
    /// `already_closed` and the release procedure returned `status`. Either is
    /// read only where the release got that far.
    pub open spec fn released(self, already_closed: bool, status: i32) -> Self {
        if self.close_already_called {
            self
        } else if self.has_cleanup && self.resource is Some {
            if !already_closed {
                ResourceState {
                    resource: if status < 0 {
                        self.resource
                    } else {
                        None
                    },
                    has_cleanup: false,
                    close_already_called: true,
                    cleanup_calls: self.cleanup_calls + 1,
                    ..self
                }
            } else {
                ResourceState {
                    resource: None,
                    has_cleanup: false,
                    close_already_called: true,
                    ..self
                }
            }
        } else {
            ResourceState { has_cleanup: false, close_already_called: true, ..self }
        }
    }

    /// What an explicit release returns in that case.
    pub open spec fn release_result(self, already_closed: bool, status: i32) -> Result<
        (),
        AeronCError,
    > {
        if self.release_invokes_cleanup(already_closed) && status < 0 {
            Err(AeronCError { code: status })
        } else {
            Ok(())
        }
    }

    /// Whether the end of scope releases at all.
    pub open spec fn scope_end_applies(self) -> bool {
        self.resource is Some && (!self.borrowed || self.auto_close)
    }

    /// The state after the end of scope, in the same terms as `released`.
    pub open spec fn scope_ended(self, already_closed: bool, status: i32) -> Self {
        if !self.scope_end_applies() {
            self
        } else {
            let after = self.released(already_closed, status);
            ResourceState {
                resource: if self.cleanup_struct {
                    None
                } else {
                    after.resource
                },
                has_cleanup: false,
                close_already_called: true,
                ..after
            }
        }
    }
}

/// One raw handle of a foreign library, owned or borrowed, with the procedure
/// that releases it. The release procedure runs at most once; a borrowed
/// handle is never released here.
///
/// `C` is the release procedure, which gets the handle and returns a status
/// code, negative on failure. `P` is the probe that tells whether the foreign
/// library has already closed the handle itself. `D` is what is retained
/// for the resource: values that have to live as long as it does.
pub struct ManagedCResource<T, C, P, D = ()> {
    resource: Option<T>,
    cleanup: Option<C>,
    cleanup_struct: bool,
    borrowed: bool,
    close_already_called: bool,
    check_for_is_closed: Option<P>,
    auto_close: bool,
    dependencies: Vec<D>,
    cleanup_calls: Ghost<nat>,
}

impl<T, C: Fn(&T) -> i32, P: Fn(&T) -> bool, D> View for ManagedCResource<T, C, P, D> {
    type V = ResourceState<T, D>;

    closed spec fn view(&self) -> ResourceState<T, D> {
        ResourceState {
            resource: self.resource,
            has_cleanup: self.cleanup is Some,
            cleanup_struct: self.cleanup_struct,
            borrowed: self.borrowed,
            close_already_called: self.close_already_called,
            has_probe: self.check_for_is_closed is Some,
            auto_close: self.auto_close,
            dependencies: self.dependencies@,
            cleanup_calls: self.cleanup_calls@,
        }
    }
}

impl<T, C: Fn(&T) -> i32, P: Fn(&T) -> bool, D> ManagedCResource<T, C, P, D> {
    /// The release procedure that is held.
    pub closed spec fn spec_cleanup(&self) -> Option<C> {
        self.cleanup
    }

    /// The probe that is held.
    pub closed spec fn spec_probe(&self) -> Option<P> {
        self.check_for_is_closed
    }

    /// The state is well-formed, and the release procedure and the probe may
    /// be called on any handle.
    pub open spec fn wf(&self) -> bool {
        &&& self@.wf()
        &&& self.spec_cleanup() is Some == self@.has_cleanup
        &&& self.spec_probe() is Some == self@.has_probe
        &&& self.spec_cleanup() matches Some(c) ==> forall|h: &T| call_requires(c, (h,))
        &&& self.spec_probe() matches Some(p) ==> forall|h: &T| call_requires(p, (h,))
    }

    /// `already_closed` is an answer that the probe may have given on the
    /// handle, where a release consults it, and `false` where it does not.
    pub open spec fn probe_answer(&self, already_closed: bool) -> bool {
        if self@.release_consults_probe() {
            call_ensures(self.spec_probe()->0, (&self@.resource->0,), already_closed)
        } else {
            !already_closed
        }
    }

    /// `status` is a code that the release procedure may have returned on the
    /// handle, where a release invokes it.
    pub open spec fn cleanup_answer(&self, already_closed: bool, status: i32) -> bool {
        self@.release_invokes_cleanup(already_closed) ==> call_ensures(
            self.spec_cleanup()->0,
            (&self@.resource->0,),
            status,
        )
    }

    /// What an initializer's outcome makes: an owning resource where the status
    /// is not negative and a handle came back, else the error that carries the
    /// status. Nothing is released where the initializer failed.
    pub fn from_init(
        status: i32,
        handle: Option<T>,
        cleanup: Option<C>,
        cleanup_struct: bool,
        check_for_is_closed: Option<P>,
    ) -> (r: Result<Self, AeronCError>)
        requires
            cleanup matches Some(c) ==> forall|h: &T| call_requires(c, (h,)),
            check_for_is_closed matches Some(p) ==> forall|h: &T| call_requires(p, (h,)),
        ensures
            r is Ok <==> status >= 0 && handle is Some,
            r matches Err(e) ==> e.code == status,
            r matches Ok(res) ==> res.wf() && res.spec_cleanup() == cleanup && res.spec_probe()
                == check_for_is_closed && res@ == (ResourceState {
                resource: handle,
                has_cleanup: cleanup is Some,
                cleanup_struct,
                borrowed: false,
                close_already_called: false,
                has_probe: check_for_is_closed is Some,
                auto_close: false,
                dependencies: Seq::<D>::empty(),
                cleanup_calls: 0,
            }),
    {
        if status < 0 || handle.is_none() {
            return Err(AeronCError::from_code(status));
        }
        Ok(
            ManagedCResource {
                resource: handle,
                cleanup,
                cleanup_struct,
                borrowed: false,
                close_already_called: false,
                check_for_is_closed,
                auto_close: false,
                dependencies: Vec::new(),
                cleanup_calls: Ghost(0),
            },
        )
    }

    /// Runs `init`, which returns a status code and the handle, and makes of
    /// its outcome what `from_init` says.
    pub fn new<I: FnOnce() -> (i32, Option<T>)>(
        init: I,
        cleanup: Option<C>,
        cleanup_struct: bool,
        check_for_is_closed: Option<P>,
    ) -> (r: Result<Self, AeronCError>)
        requires
            call_requires(init, ()),
            cleanup matches Some(c) ==> forall|h: &T| call_requires(c, (h,)),
            check_for_is_closed matches Some(p) ==> forall|h: &T| call_requires(p, (h,)),
        ensures
            match r {
                Ok(res) => exists|status: i32|
                    status >= 0 && res@.resource is Some && call_ensures(
                        init,
                        (),
                        (status, res@.resource),
                    ),
                Err(e) => exists|handle: Option<T>|
                    (e.code < 0 || handle is None) && call_ensures(init, (), (e.code, handle)),
            },
            r matches Ok(res) ==> res.wf() && res.spec_cleanup() == cleanup && res.spec_probe()
                == check_for_is_closed && res@ == (ResourceState {
                resource: res@.resource,
                has_cleanup: cleanup is Some,
                cleanup_struct,
                borrowed: false,
                close_already_called: false,
                has_probe: check_for_is_closed is Some,
                auto_close: false,
                dependencies: Seq::<D>::empty(),
                cleanup_calls: 0,
            }),
    {
        let (status, handle) = init();
        Self::from_init(status, handle, cleanup, cleanup_struct, check_for_is_closed)
    }

    /// A resource over a handle that belongs to someone else. It holds no
    /// release procedure.
    pub fn new_borrowed(value: Option<T>, check_for_is_closed: Option<P>) -> (res: Self)
        requires
            check_for_is_closed matches Some(p) ==> forall|h: &T| call_requires(p, (h,)),
        ensures
            res.wf(),
            res.spec_cleanup() is None,
            res.spec_probe() == check_for_is_closed,
            res@ == (ResourceState {
                resource: value,
                has_cleanup: false,
                cleanup_struct: false,
                borrowed: true,
                close_already_called: false,
                has_probe: check_for_is_closed is Some,
                auto_close: false,
                dependencies: Seq::<D>::empty(),
                cleanup_calls: 0,
            }),
    {
        ManagedCResource {
            resource: value,
            cleanup: None,
            cleanup_struct: false,
            borrowed: true,
            close_already_called: false,
            check_for_is_closed,
            auto_close: false,
            dependencies: Vec::new(),
            cleanup_calls: Ghost(0),
        }
    }

    /// Whether the resource counts as closed: the latch is set, the handle is
    /// cleared, or the probe says that the handle was closed elsewhere.
    pub fn is_closed_already_called(&self) -> (r: bool)
        requires
            self.wf(),
        ensures
            self@.close_already_called || self@.resource is None ==> r,
            !self@.close_already_called && self@.resource is Some && !self@.has_probe ==> !r,
            !self@.close_already_called && self@.resource is Some && self@.has_probe
                ==> call_ensures(self.spec_probe()->0, (&self@.resource->0,), r),
    {
        if self.close_already_called {
            return true;
        }
        match &self.resource {
            None => true,
            Some(h) => match &self.check_for_is_closed {
                Some(p) => p(h),
                None => false,
            },
        }
    }

    /// The raw handle, where it is not cleared.
    pub fn get(&self) -> (r: Option<&T>)
        ensures
            r is Some == self@.resource is Some,
            r matches Some(h) ==> *h == self@.resource->0,
    {
        self.resource.as_ref()
    }

    /// Makes the end of scope release this resource even where it is borrowed.
    pub fn set_auto_close(&mut self, auto_close: bool)
        requires
            old(self).wf(),
        ensures
            final(self).wf(),
            final(self).spec_cleanup() == old(self).spec_cleanup(),
            final(self).spec_probe() == old(self).spec_probe(),
            final(self)@ == (ResourceState { auto_close, ..old(self)@ }),
    {
        self.auto_close = auto_close;
    }

    /// Keeps `dep` for as long as this resource lives: it joins the values
    /// that are retained, behind those that are there.
    pub fn add_dependency(&mut self, dep: D)
        requires
            old(self).wf(),
        ensures
            final(self).wf(),
            final(self).spec_cleanup() == old(self).spec_cleanup(),
            final(self).spec_probe() == old(self).spec_probe(),
            final(self)@ == (ResourceState {
                dependencies: old(self)@.dependencies.push(dep),
                ..old(self)@
            }),
    {
        self.dependencies.push(dep);
    }

    /// The values that are retained, in the order in which they came.
    pub fn dependencies(&self) -> (r: &Vec<D>)
        ensures
            r@ == self@.dependencies,
    {
        &self.dependencies
    }

    /// Releases the resource. A second call does nothing and succeeds. The
    /// first sets the latch and gives the release procedure up, whatever
    /// comes of it; it invokes the procedure unless there is none, the handle
    /// is cleared, or the probe says that the handle was closed elsewhere. A
    /// negative status comes back as the error and leaves the handle in place;
    /// otherwise the handle is cleared.
    pub fn close(&mut self) -> (r: Result<(), AeronCError>)
        requires
            old(self).wf(),
        ensures
            final(self).wf(),
            final(self).spec_probe() == old(self).spec_probe(),
            exists|already_closed: bool, status: i32|
                {
                    &&& old(self).probe_answer(already_closed)
                    &&& old(self).cleanup_answer(already_closed, status)
                    &&& final(self)@ == old(self)@.released(already_closed, status)
                    &&& r == old(self)@.release_result(already_closed, status)
                },
    {
        if self.close_already_called {
            assert(self.probe_answer(false) && self.cleanup_answer(false, 0));
            assert(self@ == self@.released(false, 0));
            return Ok(());
        }
        let ghost pre = *self;
        self.close_already_called = true;
        let mut already_closed = false;
        let mut status: i32 = 0;
        let mut invoked = false;
        match &self.resource {
            Some(h) => {
                match &self.check_for_is_closed {
                    Some(p) => {
                        already_closed = p(h);
                    },
                    None => {},
                }
                match &self.cleanup {
                    Some(c) => {
                        if !already_closed {
                            status = c(h);
                            invoked = true;
                        }
                    },
                    None => {},
                }
            },
            None => {},
        }
        let had_cleanup = self.cleanup.is_some();
        self.cleanup = None;
        if invoked {
            proof {
                self.cleanup_calls@ = self.cleanup_calls@ + 1;
            }
            if status < 0 {
                assert(pre.probe_answer(already_closed) && pre.cleanup_answer(
                    already_closed,
                    status,
                ));
                assert(self@ == pre@.released(already_closed, status));
                return Err(AeronCError::from_code(status));
            }
        }
        if had_cleanup {
            self.resource = None;
        }
        assert(pre.probe_answer(already_closed) && pre.cleanup_answer(already_closed, status));
        assert(self@ == pre@.released(already_closed, status));
        Ok(())
    }

    /// What the end of scope does to a resource. A borrowed one is left as it
    /// is, unless it was told to close by itself. Any other is released as by
    /// `close`, without a word of a failure, and latched; its handle is
    /// cleared where the handle's storage is the resource's own.
    pub fn release_at_scope_end(&mut self)
        requires
            old(self).wf(),
        ensures
            final(self).wf(),
            final(self).spec_probe() == old(self).spec_probe(),
            !old(self)@.scope_end_applies() ==> final(self)@ == old(self)@,
            old(self)@.scope_end_applies() ==> exists|already_closed: bool, status: i32|
                {
                    &&& old(self).probe_answer(already_closed)
                    &&& old(self).cleanup_answer(already_closed, status)
                    &&& final(self)@ == old(self)@.scope_ended(already_closed, status)
                },
    {
        let applies = self.resource.is_some() && (!self.borrowed || self.auto_close);
        if !applies {
            return ;
        }
        let ghost pre = *self;
        let _ = self.close();
        let ghost (already_closed, status) = choose|already_closed: bool, status: i32|
            {
                &&& pre.probe_answer(already_closed)
                &&& pre.cleanup_answer(already_closed, status)
                &&& self@ == pre@.released(already_closed, status)
            };
        self.close_already_called = true;
        self.cleanup = None;
        if self.cleanup_struct {
            self.resource = None;
        }
        assert(self@ == pre@.scope_ended(already_closed, status));
    }
}

/// Releasing twice is releasing once: the second release changes nothing,
/// succeeds, and does not invoke the release procedure, whatever the probe
/// and the procedure would answer. The procedure is invoked at most once over
/// both.
pub proof fn lemma_release_is_idempotent<T, D>(
    s: ResourceState<T, D>,
    closed1: bool,
    status1: i32,
    closed2: bool,
    status2: i32,
)
    requires
        s.wf(),
    ensures
        s.released(closed1, status1).wf(),
        s.released(closed1, status1).released(closed2, status2) == s.released(closed1, status1),
        s.released(closed1, status1).release_result(closed2, status2) == Ok::<(), AeronCError>(()),
        !s.released(closed1, status1).release_invokes_cleanup(closed2),
        s.released(closed1, status1).released(closed2, status2).cleanup_calls <= 1,
        s.released(closed1, status1).cleanup_calls <= s.cleanup_calls + 1,
{
}

/// The end of scope after an explicit release invokes nothing more.
pub proof fn lemma_scope_end_after_release<T, D>(
    s: ResourceState<T, D>,
    closed1: bool,
    status1: i32,
    closed2: bool,
    status2: i32,
)
    requires
        s.wf(),
    ensures
        s.released(closed1, status1).scope_ended(closed2, status2).wf(),
        s.released(closed1, status1).scope_ended(closed2, status2).cleanup_calls == s.released(
            closed1,
            status1,
        ).cleanup_calls,
        s.scope_ended(closed1, status1).wf(),
        s.scope_ended(closed1, status1).cleanup_calls <= 1,
{
}

/// A borrowed resource never invokes a release procedure: not by an explicit
/// release, not at the end of scope, and not after either, in any order and
/// however often.
pub proof fn lemma_borrowed_never_releases<T, D>(s: ResourceState<T, D>, closed: bool, status: i32)
    requires
        s.wf(),
        s.borrowed,
    ensures
        s.cleanup_calls == 0,
        !s.release_invokes_cleanup(closed),
        s.released(closed, status).wf(),
        s.released(closed, status).borrowed,
        s.released(closed, status).cleanup_calls == 0,
        s.released(closed, status).resource == s.resource,
        s.release_result(closed, status) == Ok::<(), AeronCError>(()),
        s.scope_ended(closed, status).wf(),
        s.scope_ended(closed, status).borrowed,
        s.scope_ended(closed, status).cleanup_calls == 0,
{
}

/// A value handed over to foreign code as a callback's state. The value is
/// not given up when the handler goes: foreign code may still hold it. It
/// is given up by `release` alone.
pub struct Handler<T> {
    value: Option<ManuallyDrop<T>>,
    should_drop: bool,
}

/// The place of the handlers that stand for "no callback".
pub struct Handlers;

impl Handlers {
    /// The handler that holds nothing: where a callback is not wanted.
    pub fn no_handler<T>() -> (h: Handler<T>)
        ensures
            h.spec_value() is None,
            !h.spec_should_drop(),
    {
        Handler { value: None, should_drop: false }
    }
}

impl<T> Handler<T> {
    /// The value that is held, `None` once it is released.
    pub closed spec fn spec_value(&self) -> Option<T> {
        match self.value {
            Some(m) => Some(m@),
            None => None,
        }
    }

    /// Whether `release` still has something to give up.
    pub closed spec fn spec_should_drop(&self) -> bool {
        self.should_drop
    }

    /// Takes `handler` over, and keeps it until `release`.
    pub fn leak(handler: T) -> (h: Self)
        ensures
            h.spec_value() == Some(handler),
            h.spec_should_drop(),
    {
        Handler { value: Some(ManuallyDrop::new(handler)), should_drop: true }
    }

    pub fn is_none(&self) -> (r: bool)
        ensures
            r == self.spec_value() is None,
    {
        self.value.is_none()
    }

    /// The value that is held.
    pub fn get(&self) -> (r: Option<&T>)
        ensures
            r is Some == self.spec_value() is Some,
            r matches Some(v) ==> *v == self.spec_value()->0,
    {
        match &self.value {
            Some(m) => Some(m.deref()),
            None => None,
        }
    }

    /// Gives the value up: it is dropped here. A second call does nothing.
    pub fn release(&mut self)
        ensures
            final(self).spec_value() is None,
            !final(self).spec_should_drop(),
    {
        let held = self.value.take();
        self.should_drop = false;
        match held {
            Some(m) => {
                let _ = ManuallyDrop::into_inner(m);
            },
            None => {},
        }
    }
}

/// The first port from `start_port` upwards on which `is_available` answers
/// yes; `None` where it answers no on every one of them.
pub fn find_unused_udp_port<F: Fn(u16) -> bool>(start_port: u16, is_available: F) -> (r: Option<
    u16,
>)
    requires
        forall|port: u16| call_requires(is_available, (port,)),
    ensures
        match r {
            Some(port) => {
                &&& start_port <= port
                &&& call_ensures(is_available, (port,), true)
                &&& forall|p: u16|
                    start_port <= p < port ==> call_ensures(is_available, (p,), false)
            },
            None => forall|p: u16| start_port <= p ==> call_ensures(is_available, (p,), false),
        },
{
    let mut port: u16 = start_port;
    loop
        invariant
            start_port <= port,
            forall|p: u16| call_requires(is_available, (p,)),
            forall|p: u16| start_port <= p < port ==> call_ensures(is_available, (p,), false),
        decreases u16::MAX - port,
    {
        if is_available(port) {
            return Some(port);
        }
        if port == u16::MAX {
            return None;
        }
        port += 1;
    }
}

/// The vocabulary of channel addresses.
pub struct ChannelUri {}

impl ChannelUri {
    pub const AERON_SCHEME: &'static str = "aeron";

    pub const SPY_QUALIFIER: &'static str = "aeron-spy";

    pub const MAX_URI_LENGTH: usize = 4095;
}

pub const DRIVER_TIMEOUT_MS_DEFAULT: u64 = 10_000;

pub const AERON_DIR_PROP_NAME: &'static str = "aeron.dir";

pub const AERON_IPC_MEDIA: &'static str = "aeron:ipc";

pub const AERON_UDP_MEDIA: &'static str = "aeron:udp";

pub const SPY_PREFIX: &'static str = "aeron-spy:";

pub const TAG_PREFIX: &'static str = "tag:";

/// The media that a channel runs over.
#[derive(Debug, Clone, Copy, PartialEq, Eq, Hash, Structural)]
pub enum Media {
    Ipc,
    Udp,
}

impl Media {
    /// The word that stands for the media in a channel address.
    pub open spec fn spec_str(self) -> Seq<char> {
        match self {
            Media::Ipc => "ipc"@,
            Media::Udp => "udp"@,
        }
    }

    pub fn as_str(&self) -> (r: &'static str)
        ensures
            r@ == self.spec_str(),
    {
        match self {
            Media::Ipc => "ipc",
            Media::Udp => "udp",
        }
    }
}

/// How the control address of a channel is used.
#[derive(Debug, Clone, Copy, PartialEq, Eq, Hash, Structural)]
pub enum ControlMode {
    Manual,
    Dynamic,
    Response,
}

impl ControlMode {
    /// The word that stands for the mode in a channel address.
    pub open spec fn spec_str(self) -> Seq<char> {
        match self {
            ControlMode::Manual => "manual"@,
            ControlMode::Dynamic => "dynamic"@,
            ControlMode::Response => "response"@,
        }
    }

    pub fn as_str(&self) -> (r: &'static str)
        ensures
            r@ == self.spec_str(),
    {
        match self {
            ControlMode::Manual => "manual",
            ControlMode::Dynamic => "dynamic",
            ControlMode::Response => "response",
        }
    }
}

} // verus!
