//! The signatures that find the ZDoom engine's globals in its executable.
use vstd::prelude::*;
use crate::signature::{target_views, ScanTarget, Signature, TargetView};

verus! {
/// The signatures that lead to the name table, most likely first.
pub open spec fn namedata_target_views() -> Seq<TargetView> {
    seq![TargetView { pattern: seq![Some(0x0Fu8), Some(0x84u8), None, None, None, None, Some(0x48u8), Some(0x8Bu8), Some(0xD1u8), Some(0x41u8), Some(0xB0u8), Some(0x01u8), Some(0x48u8), Some(0x8Du8), Some(0x0Du8), None, None, None, None], offset: 0xF, next_instruction: 0x4 }, TargetView { pattern: seq![Some(0x45u8), Some(0x33u8), Some(0xC0u8), Some(0x48u8), Some(0x8Bu8), Some(0xD6u8), Some(0x48u8), Some(0x8Du8), Some(0x0Du8), None, None, None, None, Some(0xE8u8), None, None, None, None, Some(0x44u8), Some(0x8Bu8), Some(0xC0u8), Some(0x8Bu8), Some(0x15u8)], offset: 0x9, next_instruction: 0x4 }]
}

/// The signatures that lead to the name table, most likely first.
pub fn namedata_targets() -> (r: Vec<ScanTarget>)
    ensures
        target_views(r@) == namedata_target_views(),
{
    let mut r: Vec<ScanTarget> = Vec::new();
    let p: Vec<Option<u8>> = vec![Some(0x0Fu8), Some(0x84u8), None, None, None, None, Some(0x48u8), Some(0x8Bu8), Some(0xD1u8), Some(0x41u8), Some(0xB0u8), Some(0x01u8), Some(0x48u8), Some(0x8Du8), Some(0x0Du8), None, None, None, None];
    r.push(ScanTarget { signature: Signature::from_matchers(p), offset: 0xF, next_instruction: 0x4 });
    let p: Vec<Option<u8>> = vec![Some(0x45u8), Some(0x33u8), Some(0xC0u8), Some(0x48u8), Some(0x8Bu8), Some(0xD6u8), Some(0x48u8), Some(0x8Du8), Some(0x0Du8), None, None, None, None, Some(0xE8u8), None, None, None, None, Some(0x44u8), Some(0x8Bu8), Some(0xC0u8), Some(0x8Bu8), Some(0x15u8)];
    r.push(ScanTarget { signature: Signature::from_matchers(p), offset: 0x9, next_instruction: 0x4 });
    assert(target_views(r@) =~= namedata_target_views());
    r
}

/// The signatures that lead to the player array, most likely first.
pub open spec fn players_target_views() -> Seq<TargetView> {
    seq![TargetView { pattern: seq![Some(0x48u8), Some(0x8Du8), Some(0x05u8), None, None, None, None, Some(0x48u8), Some(0x03u8), Some(0xC8u8), Some(0xE8u8), None, None, None, None, Some(0x48u8), Some(0x63u8), Some(0x05u8)], offset: 0x3, next_instruction: 0x4 }]
}

/// The signatures that lead to the player array, most likely first.
pub fn players_targets() -> (r: Vec<ScanTarget>)
    ensures
        target_views(r@) == players_target_views(),
{
    let mut r: Vec<ScanTarget> = Vec::new();
    let p: Vec<Option<u8>> = vec![Some(0x48u8), Some(0x8Du8), Some(0x05u8), None, None, None, None, Some(0x48u8), Some(0x03u8), Some(0xC8u8), Some(0xE8u8), None, None, None, None, Some(0x48u8), Some(0x63u8), Some(0x05u8)];
    r.push(ScanTarget { signature: Signature::from_matchers(p), offset: 0x3, next_instruction: 0x4 });
    assert(target_views(r@) =~= players_target_views());
    r
}

/// The signatures that lead to the array of all classes, most likely first.
pub open spec fn all_classes_target_views() -> Seq<TargetView> {
    seq![TargetView { pattern: seq![Some(0x48u8), Some(0x8Bu8), Some(0x1Du8), None, None, None, None, Some(0x8Bu8), Some(0x05u8), None, None, None, None, Some(0x48u8), Some(0x8Du8), Some(0x3Cu8), Some(0xC3u8), Some(0x48u8), Some(0x3Bu8), Some(0xDFu8), Some(0x0Fu8), Some(0x84u8)], offset: 0x3, next_instruction: 0x4 }, TargetView { pattern: seq![Some(0x49u8), Some(0x89u8), Some(0x46u8), Some(0x30u8), Some(0x48u8), Some(0x8Bu8), Some(0x1Du8), None, None, None, None, Some(0x8Bu8), Some(0x05u8), None, None, None, None, Some(0x48u8), Some(0x8Du8), Some(0x3Cu8), Some(0xC3u8), Some(0x48u8), Some(0x3Bu8), Some(0xDFu8), Some(0x0Fu8), Some(0x84u8)], offset: 0x7, next_instruction: 0x4 }]
}

/// The signatures that lead to the array of all classes, most likely first.
pub fn all_classes_targets() -> (r: Vec<ScanTarget>)
    ensures
        target_views(r@) == all_classes_target_views(),
{
    let mut r: Vec<ScanTarget> = Vec::new();
    let p: Vec<Option<u8>> = vec![Some(0x48u8), Some(0x8Bu8), Some(0x1Du8), None, None, None, None, Some(0x8Bu8), Some(0x05u8), None, None, None, None, Some(0x48u8), Some(0x8Du8), Some(0x3Cu8), Some(0xC3u8), Some(0x48u8), Some(0x3Bu8), Some(0xDFu8), Some(0x0Fu8), Some(0x84u8)];
    r.push(ScanTarget { signature: Signature::from_matchers(p), offset: 0x3, next_instruction: 0x4 });
    let p: Vec<Option<u8>> = vec![Some(0x49u8), Some(0x89u8), Some(0x46u8), Some(0x30u8), Some(0x48u8), Some(0x8Bu8), Some(0x1Du8), None, None, None, None, Some(0x8Bu8), Some(0x05u8), None, None, None, None, Some(0x48u8), Some(0x8Du8), Some(0x3Cu8), Some(0xC3u8), Some(0x48u8), Some(0x3Bu8), Some(0xDFu8), Some(0x0Fu8), Some(0x84u8)];
    r.push(ScanTarget { signature: Signature::from_matchers(p), offset: 0x7, next_instruction: 0x4 });
    assert(target_views(r@) =~= all_classes_target_views());
    r
}

/// The signatures that lead to the level record, most likely first.
pub open spec fn level_direct_target_views() -> Seq<TargetView> {
    seq![TargetView { pattern: seq![Some(0x75u8), Some(0xD1u8), Some(0x89u8), Some(0x2Du8), None, None, None, None, Some(0x8Bu8), Some(0x05u8), None, None, None], offset: 0x4, next_instruction: 0x4 }]
}

/// The signatures that lead to the level record, most likely first.
pub fn level_direct_targets() -> (r: Vec<ScanTarget>)
    ensures
        target_views(r@) == level_direct_target_views(),
{
    let mut r: Vec<ScanTarget> = Vec::new();
    let p: Vec<Option<u8>> = vec![Some(0x75u8), Some(0xD1u8), Some(0x89u8), Some(0x2Du8), None, None, None, None, Some(0x8Bu8), Some(0x05u8), None, None, None];
    r.push(ScanTarget { signature: Signature::from_matchers(p), offset: 0x4, next_instruction: 0x4 });
    assert(target_views(r@) =~= level_direct_target_views());
    r
}

/// The signatures that lead to the pointer to the level record, most likely first.
pub open spec fn level_indirect_target_views() -> Seq<TargetView> {
    seq![TargetView { pattern: seq![Some(0x48u8), Some(0x8Bu8), Some(0x05u8), None, None, None, None, Some(0x48u8), Some(0x39u8), Some(0x03u8), Some(0x75u8), Some(0x09u8), Some(0xE8u8)], offset: 0x3, next_instruction: 0x4 }]
}

/// The signatures that lead to the pointer to the level record, most likely first.
pub fn level_indirect_targets() -> (r: Vec<ScanTarget>)
    ensures
        target_views(r@) == level_indirect_target_views(),
{
    let mut r: Vec<ScanTarget> = Vec::new();
    let p: Vec<Option<u8>> = vec![Some(0x48u8), Some(0x8Bu8), Some(0x05u8), None, None, None, None, Some(0x48u8), Some(0x39u8), Some(0x03u8), Some(0x75u8), Some(0x09u8), Some(0xE8u8)];
    r.push(ScanTarget { signature: Signature::from_matchers(p), offset: 0x3, next_instruction: 0x4 });
    assert(target_views(r@) =~= level_indirect_target_views());
    r
}

/// The signatures that lead to the pending game action, most likely first.
pub open spec fn gameaction_target_views() -> Seq<TargetView> {
    seq![TargetView { pattern: seq![Some(0xB2u8), Some(0x01u8), Some(0x89u8), Some(0x05u8), None, None, None, None, Some(0xE8u8), None, None, None, None, Some(0xC7u8), Some(0x05u8), None, None, None, None, Some(0x03u8), Some(0x00u8), Some(0x00u8), Some(0x00u8), Some(0xC7u8), Some(0x05u8), None, None, None, None, Some(0x02u8), Some(0x00u8), Some(0x00u8), Some(0x00u8)], offset: 0xF, next_instruction: 0x8 }]
}

/// The signatures that lead to the pending game action, most likely first.
pub fn gameaction_targets() -> (r: Vec<ScanTarget>)
    ensures
        target_views(r@) == gameaction_target_views(),
{
    let mut r: Vec<ScanTarget> = Vec::new();
    let p: Vec<Option<u8>> = vec![Some(0xB2u8), Some(0x01u8), Some(0x89u8), Some(0x05u8), None, None, None, None, Some(0xE8u8), None, None, None, None, Some(0xC7u8), Some(0x05u8), None, None, None, None, Some(0x03u8), Some(0x00u8), Some(0x00u8), Some(0x00u8), Some(0xC7u8), Some(0x05u8), None, None, None, None, Some(0x02u8), Some(0x00u8), Some(0x00u8), Some(0x00u8)];
    r.push(ScanTarget { signature: Signature::from_matchers(p), offset: 0xF, next_instruction: 0x8 });
    assert(target_views(r@) =~= gameaction_target_views());
    r
}

} // verus!
