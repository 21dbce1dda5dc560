use vstd::prelude::*;

use crate::model::AuthZone;
use crate::node_ref::CallFrame;
use crate::types::u32_be_bytes;
use crate::types::NonFungibleId;
use crate::errors::KernelError;
use crate::errors::RuntimeError;
use crate::node_ref::RENodePointer;
use crate::types::FnIdent;
use crate::types::FunctionIdent;
use crate::types::MethodFnIdent;
use crate::types::MethodFnIdentView;
use crate::types::MethodIdent;
use crate::types::MethodIdentView;
use crate::types::NativeFunctionFnIdent;
use crate::types::NativeMethodFnIdent;
use crate::types::RENodeId;
use crate::types::Receiver;
use crate::values::RENode;

verus! {

/// Authorization of calls.
pub struct AuthModule;

impl AuthModule {
    /// The id of the supervisor badge.
    pub fn supervisor_id() -> (r: NonFungibleId)
        ensures
            r@ == u32_be_bytes(0),
    {
        NonFungibleId::from_u32(0)
    }

    /// The id of the system badge.
    pub fn system_id() -> (r: NonFungibleId)
        ensures
            r@ == u32_be_bytes(1),
    {
        NonFungibleId::from_u32(1)
    }
}

/// The frame owns a value whose root is an auth zone.
pub open spec fn has_auth_zone(frame: CallFrame) -> bool {
    exists|k: RENodeId|
        #[trigger] frame.owned_heap_nodes@.contains_key(k)
            && frame.owned_heap_nodes@[k].root is AuthZone
}

/// `zone` is the root of a value the frame owns.
pub open spec fn is_auth_zone_of(frame: CallFrame, zone: AuthZone) -> bool {
    exists|k: RENodeId|
        #[trigger] frame.owned_heap_nodes@.contains_key(k)
            && frame.owned_heap_nodes@[k].root == RENode::AuthZone(zone)
}

/// The auth zone among the values a frame owns (any one of them where the
/// frame owns several).
fn find_auth_zone(frame: &CallFrame) -> (r: &AuthZone)
    requires
        has_auth_zone(*frame),
    ensures
        is_auth_zone_of(*frame, *r),
{
    let keys = frame.owned_heap_nodes.keys();
    let mut i: usize = 0;
    while i < keys.len()
        invariant
            i <= keys@.len(),
            forall|k: RENodeId| #[trigger]
                frame.owned_heap_nodes@.contains_key(k) <==> crate::assoc::seq_has_key(keys@, k),
            forall|j: int|
                0 <= j < i ==> !(frame.owned_heap_nodes@[#[trigger] keys@[j]].root is AuthZone),
            has_auth_zone(*frame),
        decreases keys@.len() - i,
    {
        let k = keys[i];
        assert(crate::assoc::seq_has_key(keys@, k@));
        match frame.owned_heap_nodes.get(&k) {
            Some(value) => {
                match value.root() {
                    RENode::AuthZone(zone) => {
                        return zone;
                    },
                    _ => {},
                }
            },
            None => {},
        }
        i = i + 1;
    }
    proof {
        let k = choose|k: RENodeId|
            #[trigger] frame.owned_heap_nodes@.contains_key(k)
                && frame.owned_heap_nodes@[k].root is AuthZone;
        assert(crate::assoc::seq_has_key(keys@, k));
        let j = choose|j: int| 0 <= j < keys@.len() && keys@[j]@ == k;
        assert(keys@[j] == k);
    }
    vstd::pervasive::unreached()
}

impl AuthModule {
    /// The auth zones an authorization check consults: that of the current
    /// (last) frame and, when there is one, that of its caller.
    pub fn auth_zones(call_frames: &Vec<CallFrame>) -> (r: Vec<&AuthZone>)
        requires
            call_frames@.len() > 0,
            has_auth_zone(call_frames@.last()),
            call_frames@.len() > 1 ==> has_auth_zone(call_frames@[call_frames@.len() - 2]),
        ensures
            r@.len() == if call_frames@.len() > 1 { 2int } else { 1int },
            is_auth_zone_of(call_frames@.last(), *r@[0]),
            call_frames@.len() > 1 ==> is_auth_zone_of(
                call_frames@[call_frames@.len() - 2],
                *r@[1],
            ),
    {
        let n = call_frames.len();
        let mut r: Vec<&AuthZone> = Vec::new();
        r.push(find_auth_zone(&call_frames[n - 1]));
        if n > 1 {
            r.push(find_auth_zone(&call_frames[n - 2]));
        }
        r
    }
}

/// An authorization that a call did not meet.
pub struct AuthError<I, A, E> {
    /// The function or method called.
    pub fn_ident: I,
    /// The first authorization not met.
    pub authorization: A,
    /// Why it was not met.
    pub error: E,
}

/// `zones` are the auth zones a check in the frames `frames` consults: that
/// of the current frame and, when there is one, that of its caller.
pub open spec fn consulted_zones(frames: Seq<CallFrame>, zones: Seq<&AuthZone>) -> bool {
    &&& frames.len() > 0
    &&& zones.len() == if frames.len() > 1 { 2int } else { 1int }
    &&& is_auth_zone_of(frames.last(), *zones[0])
    &&& frames.len() > 1 ==> is_auth_zone_of(frames[frames.len() - 2], *zones[1])
}

/// `r` is what checking the authorizations `auths` of the call `fn_ident`
/// in the frames `frames` with `check` gives: `Ok` when every check
/// passed; otherwise the first authorization whose check failed, with its
/// error, every earlier check having passed. All checks consult the same
/// auth zones: that of the current frame and, when there is one, that of
/// its caller.
pub open spec fn auth_checked<I, A, E, F: Fn(&A, &Vec<&AuthZone>) -> Result<(), E>>(
    frames: Seq<CallFrame>,
    auths: Seq<A>,
    check: F,
    fn_ident: I,
    r: Result<(), AuthError<I, A, E>>,
) -> bool {
    exists|zones: Vec<&AuthZone>|
        #![trigger consulted_zones(frames, zones@)]
        {
            &&& consulted_zones(frames, zones@)
            &&& match r {
                Ok(()) => forall|i: int|
                    0 <= i < auths.len() ==> #[trigger] check.ensures(
                        (&auths[i], &zones),
                        Ok::<(), E>(()),
                    ),
                Err(err) => {
                    &&& err.fn_ident == fn_ident
                    &&& exists|i: int|
                        #![trigger auths[i]]
                        {
                            &&& 0 <= i < auths.len()
                            &&& err.authorization == auths[i]
                            &&& check.ensures((&auths[i], &zones), Err::<(), E>(err.error))
                            &&& forall|k: int|
                                0 <= k < i ==> #[trigger] check.ensures(
                                    (&auths[k], &zones),
                                    Ok::<(), E>(()),
                                )
                        }
                },
            }
        }
}

impl AuthModule {
    /// Checks the authorizations of a call, in order, against the auth
    /// zones of the current frame and its caller; fails with the first one
    /// not met.
    pub fn check_auth<I, A, E, F: Fn(&A, &Vec<&AuthZone>) -> Result<(), E>>(
        fn_ident: I,
        method_auths: Vec<A>,
        call_frames: &Vec<CallFrame>,
        check: F,
    ) -> (r: Result<(), AuthError<I, A, E>>)
        requires
            call_frames@.len() > 0,
            has_auth_zone(call_frames@.last()),
            call_frames@.len() > 1 ==> has_auth_zone(call_frames@[call_frames@.len() - 2]),
            forall|a: &A, z: &Vec<&AuthZone>| #[trigger] check.requires((a, z)),
        ensures
            auth_checked(call_frames@, method_auths@, check, fn_ident, r),
    {
        let zones = Self::auth_zones(call_frames);
        let mut auths = method_auths;
        let mut i: usize = 0;
        while i < auths.len()
            invariant
                i <= auths@.len(),
                auths@ == method_auths@,
                consulted_zones(call_frames@, zones@),
                forall|a: &A, z: &Vec<&AuthZone>| #[trigger] check.requires((a, z)),
                forall|k: int|
                    0 <= k < i ==> #[trigger] check.ensures(
                        (&method_auths@[k], &zones),
                        Ok::<(), E>(()),
                    ),
            decreases auths@.len() - i,
        {
            let res = check(&auths[i], &zones);
            match res {
                Ok(u) => {
                    assert(u == ());
                    assert(res == Ok::<(), E>(()));
                    assert(auths@[i as int] == method_auths@[i as int]);
                },
                Err(error) => {
                    let authorization = auths.remove(i);
                    return Err(AuthError { fn_ident, authorization, error });
                },
            }
            i = i + 1;
        }
        Ok(())
    }
}

/// Where the authorizations a method call must meet come from.
#[derive(Debug, PartialEq, Eq)]
pub enum AuthSource {
    /// The resource manager of the bucket's resource, for the bucket
    /// method.
    BucketMethod(u8),
    /// The resource manager at the address, for its method.
    ResourceManagerMethod(u64, u8),
    /// The system, for its method.
    SystemMethod(u8),
    /// Nobody may make the call.
    DenyAll,
    /// The call needs no authorization.
    Unrestricted,
    /// The component, for its blueprint's method of that name, once the
    /// method is found in the blueprint's interface and the input matches.
    ComponentMethod(Vec<u8>),
    /// The resource manager of the vault's resource, for the vault method.
    VaultMethod(u8),
}

/// The mathematical content of an `AuthSource`.
pub enum AuthSourceView {
    BucketMethod(u8),
    ResourceManagerMethod(u64, u8),
    SystemMethod(u8),
    DenyAll,
    Unrestricted,
    ComponentMethod(Seq<u8>),
    VaultMethod(u8),
}

impl View for AuthSource {
    type V = AuthSourceView;

    open spec fn view(&self) -> AuthSourceView {
        match self {
            AuthSource::BucketMethod(f) => AuthSourceView::BucketMethod(*f),
            AuthSource::ResourceManagerMethod(a, f) => AuthSourceView::ResourceManagerMethod(*a, *f),
            AuthSource::SystemMethod(f) => AuthSourceView::SystemMethod(*f),
            AuthSource::DenyAll => AuthSourceView::DenyAll,
            AuthSource::Unrestricted => AuthSourceView::Unrestricted,
            AuthSource::ComponentMethod(name) => AuthSourceView::ComponentMethod(name@),
            AuthSource::VaultMethod(f) => AuthSourceView::VaultMethod(*f),
        }
    }
}

/// Where the authorizations of a method call come from: a consumed bucket's
/// methods ask its resource manager; a resource manager's, the system's and
/// a vault's native methods ask their resource manager or the system; a
/// component's native methods are denied when it is stored and free on the
/// heap; a component's blueprint methods ask the component; anything else
/// is free.
pub open spec fn auth_source(m: MethodIdentView, pointer: RENodePointer) -> AuthSourceView {
    match (m.receiver, m.method_fn_ident) {
        (
            Receiver::Consumed(RENodeId::Bucket(_)),
            MethodFnIdentView::Native(NativeMethodFnIdent::Bucket(f)),
        ) => AuthSourceView::BucketMethod(f),
        (
            Receiver::Ref(RENodeId::ResourceManager(a)),
            MethodFnIdentView::Native(NativeMethodFnIdent::ResourceManager(f)),
        ) => AuthSourceView::ResourceManagerMethod(a, f),
        (
            Receiver::Ref(RENodeId::System(_)),
            MethodFnIdentView::Native(NativeMethodFnIdent::System(f)),
        ) => AuthSourceView::SystemMethod(f),
        (Receiver::Ref(RENodeId::Component(_)), MethodFnIdentView::Native(_)) => match pointer {
            RENodePointer::Store(_) => AuthSourceView::DenyAll,
            RENodePointer::Heap { .. } => AuthSourceView::Unrestricted,
        },
        (Receiver::Ref(RENodeId::Component(_)), MethodFnIdentView::Scrypto(name)) => AuthSourceView::ComponentMethod(name),
        (
            Receiver::Ref(RENodeId::Vault(_)),
            MethodFnIdentView::Native(NativeMethodFnIdent::Vault(f)),
        ) => AuthSourceView::VaultMethod(f),
        _ => AuthSourceView::Unrestricted,
    }
}

impl AuthModule {
    /// Where the authorizations a method call must meet come from.
    pub fn receiver_auth_source(method: &MethodIdent, pointer: &RENodePointer) -> (r: AuthSource)
        ensures
            r@ == auth_source(method@, *pointer),
    {
        match (&method.receiver, &method.method_fn_ident) {
            (
                Receiver::Consumed(RENodeId::Bucket(_)),
                MethodFnIdent::Native(NativeMethodFnIdent::Bucket(f)),
            ) => AuthSource::BucketMethod(*f),
            (
                Receiver::Ref(RENodeId::ResourceManager(a)),
                MethodFnIdent::Native(NativeMethodFnIdent::ResourceManager(f)),
            ) => AuthSource::ResourceManagerMethod(*a, *f),
            (
                Receiver::Ref(RENodeId::System(_)),
                MethodFnIdent::Native(NativeMethodFnIdent::System(f)),
            ) => AuthSource::SystemMethod(*f),
            (Receiver::Ref(RENodeId::Component(_)), MethodFnIdent::Native(_)) => match pointer {
                RENodePointer::Store(_) => AuthSource::DenyAll,
                RENodePointer::Heap { .. } => AuthSource::Unrestricted,
            },
            (Receiver::Ref(RENodeId::Component(_)), MethodFnIdent::Scrypto(name)) => AuthSource::ComponentMethod(
                crate::bytes::copy_bytes(name.as_slice()),
            ),
            (
                Receiver::Ref(RENodeId::Vault(_)),
                MethodFnIdent::Native(NativeMethodFnIdent::Vault(f)),
            ) => AuthSource::VaultMethod(*f),
            _ => AuthSource::Unrestricted,
        }
    }

    /// Checks a call of a blueprint method on a component against the
    /// blueprint's interface: fails when the method is not in it, else when
    /// the input does not match what the method takes.
    pub fn check_scrypto_call(fn_found: bool, input_matches: bool, method: MethodIdent) -> (r: Result<
        (),
        RuntimeError,
    >)
        ensures
            !fn_found ==> r == Err::<(), RuntimeError>(
                RuntimeError::KernelError(KernelError::FnIdentNotFound(FnIdent::Method(method))),
            ),
            fn_found && !input_matches ==> r == Err::<(), RuntimeError>(
                RuntimeError::KernelError(KernelError::InvalidFnInput2(FnIdent::Method(method))),
            ),
            fn_found && input_matches ==> r is Ok,
    {
        if !fn_found {
            Err(RuntimeError::KernelError(KernelError::FnIdentNotFound(FnIdent::Method(method))))
        } else if !input_matches {
            Err(RuntimeError::KernelError(KernelError::InvalidFnInput2(FnIdent::Method(method))))
        } else {
            Ok(())
        }
    }

    /// Checks the authorizations of a function call: a native system
    /// function must meet `system_auth` (the system's authorizations for
    /// it); any other function needs none.
    pub fn function_auth<A, E, F: Fn(&A, &Vec<&AuthZone>) -> Result<(), E>>(
        function_ident: FunctionIdent,
        system_auth: Vec<A>,
        call_frames: &Vec<CallFrame>,
        check: F,
    ) -> (r: Result<(), AuthError<FnIdent, A, E>>)
        requires
            call_frames@.len() > 0,
            has_auth_zone(call_frames@.last()),
            call_frames@.len() > 1 ==> has_auth_zone(call_frames@[call_frames@.len() - 2]),
            forall|a: &A, z: &Vec<&AuthZone>| #[trigger] check.requires((a, z)),
        ensures
            auth_checked(
                call_frames@,
                if function_ident matches FunctionIdent::Native(NativeFunctionFnIdent::System(_)) {
                    system_auth@
                } else {
                    Seq::<A>::empty()
                },
                check,
                FnIdent::Function(function_ident),
                r,
            ),
    {
        let ghost expected = if function_ident matches FunctionIdent::Native(
            NativeFunctionFnIdent::System(_),
        ) {
            system_auth@
        } else {
            Seq::<A>::empty()
        };
        let auth = match &function_ident {
            FunctionIdent::Native(NativeFunctionFnIdent::System(_)) => system_auth,
            _ => Vec::new(),
        };
        assert(auth@ =~= expected);
        Self::check_auth(FnIdent::Function(function_ident), auth, call_frames, check)
    }
}

/// Where a call's authorizations come from depends on where the node lies
/// (on the heap or in the store) only for native methods of components.
pub proof fn lemma_auth_source_pointer_matters_only_for_components(
    m: MethodIdentView,
    p1: RENodePointer,
    p2: RENodePointer,
)
    requires
        !(m.receiver matches Receiver::Ref(RENodeId::Component(_)) && m.method_fn_ident is Native),
    ensures
        auth_source(m, p1) == auth_source(m, p2),
{
}

/// A native vault, resource-manager or system method called on a node of
/// its kind, and a native bucket method called on a consumed bucket, must
/// meet the authorizations of that very method, wherever the node lies; a
/// blueprint method on a component asks the component for that method.
pub proof fn lemma_native_methods_are_guarded(
    receiver: Receiver,
    f: NativeMethodFnIdent,
    name: Seq<u8>,
    p: RENodePointer,
)
    ensures
        ({
            let m = MethodIdentView { receiver, method_fn_ident: MethodFnIdentView::Native(f) };
            &&& (receiver is Ref && receiver->Ref_0 is Vault && f is Vault) ==> auth_source(m, p)
                == AuthSourceView::VaultMethod(f->Vault_0)
            &&& (receiver is Consumed && receiver->Consumed_0 is Bucket && f is Bucket) ==> auth_source(
                m,
                p,
            ) == AuthSourceView::BucketMethod(f->Bucket_0)
            &&& (receiver is Ref && receiver->Ref_0 is ResourceManager && f is ResourceManager)
                ==> auth_source(m, p) == AuthSourceView::ResourceManagerMethod(
                receiver->Ref_0->ResourceManager_0,
                f->ResourceManager_0,
            )
            &&& (receiver is Ref && receiver->Ref_0 is System && f is System) ==> auth_source(m, p)
                == AuthSourceView::SystemMethod(f->System_0)
        }),
        (receiver is Ref && receiver->Ref_0 is Component) ==> auth_source(
            MethodIdentView { receiver, method_fn_ident: MethodFnIdentView::Scrypto(name) },
            p,
        ) == AuthSourceView::ComponentMethod(name),
{
}

/// Only native methods of a component kept in the store are denied to all.
pub proof fn lemma_deny_all_only_for_stored_components(m: MethodIdentView, p: RENodePointer)
    ensures
        auth_source(m, p) is DenyAll <==> (m.receiver matches Receiver::Ref(RENodeId::Component(_))
            && m.method_fn_ident is Native && p is Store),
{
}

/// Where a frame owns a single auth zone, that is the one its lookup finds.
pub proof fn lemma_single_auth_zone(frame: CallFrame, zone: AuthZone, other: AuthZone)
    requires
        forall|k: RENodeId| #[trigger]
            frame.owned_heap_nodes@.contains_key(k) && frame.owned_heap_nodes@[k].root is AuthZone
                ==> frame.owned_heap_nodes@[k].root == RENode::AuthZone(zone),
        is_auth_zone_of(frame, other),
    ensures
        other == zone,
{
}

/// The supervisor and the system badges have different ids.
pub proof fn lemma_badge_ids_distinct()
    ensures
        u32_be_bytes(0) != u32_be_bytes(1),
{
    assert(u32_be_bytes(0)[3] == 0u8) by (bit_vector);
    assert(u32_be_bytes(1)[3] == 1u8) by (bit_vector);
}

} // verus!
