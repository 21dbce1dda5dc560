use radix_engine::auth_module::{AuthModule, AuthSource};
use radix_engine::errors::{KernelError, RuntimeError};
use radix_engine::node_ref::RENodePointer;
use radix_engine::model::{
    decode_non_fungible, encode_non_fungible, encode_optional, Bucket, ComponentInfo,
    KeyValueStoreEntrySubstate, NonFungible, NonFungibleSubstate, Resource, ScryptoValue, Vault,
    COMPONENT_INFO_TAG, NON_FUNGIBLE_TAG, OPTION_TAG,
};
use radix_engine::assoc::AssocMap;
use radix_engine::model::{AuthZone, Proof};
use radix_engine::node_ref::CallFrame;
use radix_engine::types::{
    FnIdent, FunctionIdent, MethodFnIdent, MethodIdent, NativeFunctionFnIdent, NativeMethodFnIdent, NonFungibleId,
    RENodeId, Receiver, SubstateId,
};
use radix_engine::values::{RENode, REValue};

#[test]
fn test_badge_ids() {
    assert_eq!(AuthModule::supervisor_id().to_vec(), vec![0, 0, 0, 0]);
    assert_eq!(AuthModule::system_id().to_vec(), vec![0, 0, 0, 1]);
    assert_ne!(AuthModule::supervisor_id(), AuthModule::system_id());
}

#[test]
fn test_non_fungible_id_from_u32_is_big_endian() {
    assert_eq!(NonFungibleId::from_u32(0x01020304).0, vec![1, 2, 3, 4]);
}

#[test]
fn test_substate_id_same_as() {
    let a = SubstateId::NonFungible(3, NonFungibleId(vec![1, 2]));
    let b = SubstateId::NonFungible(3, NonFungibleId(vec![1, 2]));
    let c = SubstateId::NonFungible(3, NonFungibleId(vec![1]));
    assert!(a.same_as(&b));
    assert!(!a.same_as(&c));
    assert!(!SubstateId::Vault(1).same_as(&SubstateId::Package(1)));
    assert!(SubstateId::Worktop.same_as(&SubstateId::Worktop));
    assert_eq!(a.duplicate(), b);
    assert_ne!(RENodeId::Vault(1), RENodeId::Component(1));
}

#[test]
fn test_non_fungible_encoding_round_trip() {
    let nf = NonFungible { immutable_data: vec![1, 2, 3], mutable_data: vec![9] };
    let encoded = encode_non_fungible(&NonFungibleSubstate(Some(nf)));
    assert_eq!(
        encoded.raw,
        vec![NON_FUNGIBLE_TAG, 1, 3, 0, 0, 0, 0, 0, 0, 0, 1, 2, 3, 9]
    );
    let decoded = decode_non_fungible(&encoded).expect("decodes");
    assert_eq!(
        decoded,
        NonFungibleSubstate(Some(NonFungible { immutable_data: vec![1, 2, 3], mutable_data: vec![9] }))
    );
    let none = encode_non_fungible(&NonFungibleSubstate(None));
    assert_eq!(none.raw, vec![NON_FUNGIBLE_TAG, 0]);
    assert_eq!(decode_non_fungible(&none), Some(NonFungibleSubstate(None)));
}

#[test]
fn test_non_fungible_decoding_rejects_bad_bytes() {
    assert_eq!(decode_non_fungible(&ScryptoValue { raw: vec![] }), None);
    assert_eq!(decode_non_fungible(&ScryptoValue { raw: vec![OPTION_TAG, 0] }), None);
    // The stated length runs past the end.
    assert_eq!(
        decode_non_fungible(&ScryptoValue { raw: vec![NON_FUNGIBLE_TAG, 1, 5, 0, 0, 0, 0, 0, 0, 0, 1] }),
        None
    );
}

#[test]
fn test_option_and_info_encoding() {
    assert_eq!(encode_optional(&KeyValueStoreEntrySubstate(None)).raw, vec![OPTION_TAG, 0]);
    assert_eq!(
        encode_optional(&KeyValueStoreEntrySubstate(Some(vec![4, 5]))).raw,
        vec![OPTION_TAG, 1, 4, 5]
    );
    let info = ComponentInfo { package_address: 258, blueprint_name: b"Ab".to_vec() };
    assert_eq!(
        info.info().raw,
        vec![COMPONENT_INFO_TAG, 2, 1, 0, 0, 0, 0, 0, 0, b'A', b'b']
    );
}

#[test]
fn test_vault_resource_fails_when_locked() {
    let r = Resource { resource_address: 1, amount: 10 };
    assert_eq!(Vault::new(r).resource(), Ok(r));
    assert_eq!(Vault { resource: r, locked_amount: 3 }.resource(), Err(()));
    assert_eq!(Bucket { resource: r, locked: true }.resource_address(), 1);
}

fn frame_with_zone(zone_id: u32, amount: u64) -> CallFrame {
    let mut frame = CallFrame { owned_heap_nodes: AssocMap::new() };
    frame.owned_heap_nodes.insert(
        RENodeId::Bucket(7),
        REValue {
            root: RENode::Bucket(Bucket { resource: Resource { resource_address: 5, amount: 1 }, locked: false }),
            non_root_nodes: AssocMap::new(),
        },
    );
    frame.owned_heap_nodes.insert(
        RENodeId::AuthZone(zone_id),
        REValue {
            root: RENode::AuthZone(AuthZone {
                proofs: vec![Proof { resource_address: 9, amount, restricted: false }],
            }),
            non_root_nodes: AssocMap::new(),
        },
    );
    frame
}

#[test]
fn auth_zones_of_current_frame_only() {
    let frames = vec![frame_with_zone(1, 3)];
    let zones = AuthModule::auth_zones(&frames);
    assert_eq!(zones.len(), 1);
    assert_eq!(zones[0].proofs[0].amount, 3);
}

#[test]
fn auth_zones_include_caller_frame() {
    let frames = vec![frame_with_zone(1, 3), frame_with_zone(2, 4), frame_with_zone(3, 5)];
    let zones = AuthModule::auth_zones(&frames);
    assert_eq!(zones.len(), 2);
    assert_eq!(zones[0].proofs[0].amount, 5);
    assert_eq!(zones[1].proofs[0].amount, 4);
}

#[test]
fn check_auth_fails_with_first_unmet_authorization() {
    let frames = vec![frame_with_zone(1, 3), frame_with_zone(2, 4)];
    // an authorization is met when some consulted zone holds at least that amount
    let check = |need: &u64, zones: &Vec<&AuthZone>| -> Result<(), u64> {
        if zones.iter().any(|z| z.proofs.iter().any(|p| p.amount >= *need)) {
            Ok(())
        } else {
            Err(*need)
        }
    };
    assert!(AuthModule::check_auth("f", vec![1u64, 4, 2], &frames, check).is_ok());
    let err = AuthModule::check_auth("g", vec![2u64, 9, 10], &frames, check).unwrap_err();
    assert_eq!(err.fn_ident, "g");
    assert_eq!(err.authorization, 9);
    assert_eq!(err.error, 9);
    assert!(AuthModule::check_auth("h", Vec::<u64>::new(), &frames, check).is_ok());
}

#[test]
fn check_auth_consults_only_current_and_caller_frames() {
    let frames = vec![frame_with_zone(1, 50), frame_with_zone(2, 4), frame_with_zone(3, 5)];
    let check = |need: &u64, zones: &Vec<&AuthZone>| -> Result<(), ()> {
        if zones.iter().any(|z| z.proofs.iter().any(|p| p.amount >= *need)) { Ok(()) } else { Err(()) }
    };
    assert!(AuthModule::check_auth(0u8, vec![5u64], &frames, check).is_ok());
    assert!(AuthModule::check_auth(0u8, vec![50u64], &frames, check).is_err());
}

fn method(receiver: Receiver, f: MethodFnIdent) -> MethodIdent {
    MethodIdent { receiver, method_fn_ident: f }
}

#[test]
fn receiver_auth_sources() {
    let heap = RENodePointer::Heap { frame_id: 0, root: RENodeId::Component(3), id: None };
    let store = RENodePointer::Store(RENodeId::Component(3));
    let bucket = method(
        Receiver::Consumed(RENodeId::Bucket(1)),
        MethodFnIdent::Native(NativeMethodFnIdent::Bucket(2)),
    );
    assert_eq!(AuthModule::receiver_auth_source(&bucket, &heap), AuthSource::BucketMethod(2));
    // a bucket only referred to needs nothing
    let bucket_ref = method(Receiver::Ref(RENodeId::Bucket(1)), MethodFnIdent::Native(NativeMethodFnIdent::Bucket(2)));
    assert_eq!(AuthModule::receiver_auth_source(&bucket_ref, &heap), AuthSource::Unrestricted);
    let rm = method(
        Receiver::Ref(RENodeId::ResourceManager(8)),
        MethodFnIdent::Native(NativeMethodFnIdent::ResourceManager(4)),
    );
    assert_eq!(AuthModule::receiver_auth_source(&rm, &store), AuthSource::ResourceManagerMethod(8, 4));
    let sys = method(Receiver::Ref(RENodeId::System(0)), MethodFnIdent::Native(NativeMethodFnIdent::System(5)));
    assert_eq!(AuthModule::receiver_auth_source(&sys, &store), AuthSource::SystemMethod(5));
    let native_component = method(
        Receiver::Ref(RENodeId::Component(3)),
        MethodFnIdent::Native(NativeMethodFnIdent::Component(1)),
    );
    assert_eq!(AuthModule::receiver_auth_source(&native_component, &store), AuthSource::DenyAll);
    assert_eq!(AuthModule::receiver_auth_source(&native_component, &heap), AuthSource::Unrestricted);
    let scrypto = method(Receiver::Ref(RENodeId::Component(3)), MethodFnIdent::Scrypto(b"withdraw".to_vec()));
    assert_eq!(
        AuthModule::receiver_auth_source(&scrypto, &store),
        AuthSource::ComponentMethod(b"withdraw".to_vec())
    );
    let vault = method(Receiver::Ref(RENodeId::Vault(6)), MethodFnIdent::Native(NativeMethodFnIdent::Vault(7)));
    assert_eq!(AuthModule::receiver_auth_source(&vault, &store), AuthSource::VaultMethod(7));
    let other = method(Receiver::Ref(RENodeId::Worktop), MethodFnIdent::Native(NativeMethodFnIdent::Worktop(1)));
    assert_eq!(AuthModule::receiver_auth_source(&other, &store), AuthSource::Unrestricted);
}

#[test]
fn scrypto_call_checks() {
    let m = || method(Receiver::Ref(RENodeId::Component(3)), MethodFnIdent::Scrypto(b"f".to_vec()));
    assert_eq!(
        AuthModule::check_scrypto_call(false, false, m()),
        Err(RuntimeError::KernelError(KernelError::FnIdentNotFound(FnIdent::Method(m()))))
    );
    assert_eq!(
        AuthModule::check_scrypto_call(true, false, m()),
        Err(RuntimeError::KernelError(KernelError::InvalidFnInput2(FnIdent::Method(m()))))
    );
    assert_eq!(AuthModule::check_scrypto_call(true, true, m()), Ok(()));
}

#[test]
fn function_auth_applies_system_auth_only_to_system_functions() {
    let frames = vec![frame_with_zone(1, 3)];
    let check = |need: &u64, zones: &Vec<&AuthZone>| -> Result<(), u64> {
        if zones.iter().any(|z| z.proofs.iter().any(|p| p.amount >= *need)) { Ok(()) } else { Err(*need) }
    };
    let err = AuthModule::function_auth(
        FunctionIdent::Native(NativeFunctionFnIdent::System(1)),
        vec![2u64, 8],
        &frames,
        check,
    )
    .unwrap_err();
    assert_eq!(err.authorization, 8);
    assert_eq!(err.fn_ident, FnIdent::Function(FunctionIdent::Native(NativeFunctionFnIdent::System(1))));
    assert!(AuthModule::function_auth(
        FunctionIdent::Native(NativeFunctionFnIdent::Package(1)),
        vec![8u64],
        &frames,
        check,
    )
    .is_ok());
}
