//! Delayed permission requests.
//!
//! Permissions are never requested on launch: each is asked for only when the
//! user opens a feature that needs it, and always inside the unlocked shell.

use vstd::prelude::*;

verus! {

/// A system permission that the app may need.
#[derive(Debug, Clone, Copy, PartialEq, Eq, Hash, Structural)]
pub enum AppPermission {
    /// Needed to share/receive packages via Bluetooth.
    BluetoothNearbyDevices,
    /// Needed to share via Wi-Fi Direct / local network.
    LocalNetwork,
    /// Needed to import from SD card / USB.
    ExternalStorageRead,
    /// Needed to play audio lessons.
    AudioPlayback,
    /// Needed for QR code scanning (camera).
    Camera,
}

/// The UI action that triggers a permission request.
#[derive(Debug, Clone, Copy, PartialEq, Eq, Structural)]
pub enum TriggerAction {
    /// User opened the "Share" (sync) menu.
    OpenShareMenu,
    /// User tapped "Import from storage".
    OpenImportFromStorage,
    /// User tapped the audio play button on a lesson step.
    PlayAudio,
    /// User tapped the QR scanner button.
    OpenQrScanner,
}

/// The permissions a trigger action needs, in request order.
pub open spec fn permissions_for(action: TriggerAction) -> Seq<AppPermission> {
    match action {
        TriggerAction::OpenShareMenu => seq![
            AppPermission::BluetoothNearbyDevices,
            AppPermission::LocalNetwork,
        ],
        TriggerAction::OpenImportFromStorage => seq![AppPermission::ExternalStorageRead],
        TriggerAction::PlayAudio => seq![AppPermission::AudioPlayback],
        TriggerAction::OpenQrScanner => seq![AppPermission::Camera],
    }
}

/// The explanation key shown for a permission.
pub open spec fn explanation_key_for(permission: AppPermission) -> Seq<char> {
    match permission {
        AppPermission::BluetoothNearbyDevices => "perm.bluetooth.reason"@,
        AppPermission::LocalNetwork => "perm.network.reason"@,
        AppPermission::ExternalStorageRead => "perm.storage.reason"@,
        AppPermission::AudioPlayback => "perm.audio.reason"@,
        AppPermission::Camera => "perm.camera.reason"@,
    }
}

/// Returns the minimum list of permissions needed for a trigger action.
pub fn required_permissions(action: &TriggerAction) -> (perms: Vec<AppPermission>)
    ensures
        perms@ == permissions_for(*action),
{
    match action {
        TriggerAction::OpenShareMenu => vec![
            AppPermission::BluetoothNearbyDevices,
            AppPermission::LocalNetwork,
        ],
        TriggerAction::OpenImportFromStorage => vec![AppPermission::ExternalStorageRead],
        TriggerAction::PlayAudio => vec![AppPermission::AudioPlayback],
        TriggerAction::OpenQrScanner => vec![AppPermission::Camera],
    }
}

/// A user-safe explanation string key for why a permission is needed.
///
/// The key mentions no product name and no sensitive term.
pub fn user_safe_explanation_key(permission: &AppPermission) -> (key: &'static str)
    ensures
        key@ == explanation_key_for(*permission),
{
    match permission {
        AppPermission::BluetoothNearbyDevices => "perm.bluetooth.reason",
        AppPermission::LocalNetwork => "perm.network.reason",
        AppPermission::ExternalStorageRead => "perm.storage.reason",
        AppPermission::AudioPlayback => "perm.audio.reason",
        AppPermission::Camera => "perm.camera.reason",
    }
}

/// `word` occurs in `text` as a contiguous run of characters.
pub open spec fn mentions(text: Seq<char>, word: Seq<char>) -> bool {
    exists|i: int| 0 <= i && i + word.len() <= text.len() && #[trigger] text.subrange(i, i + word.len()) == word
}

/// `text` has no position where `a` is directly followed by `b`.
spec fn no_pair(text: Seq<char>, a: char, b: char) -> bool {
    forall|i: int| 0 <= i && i + 1 < text.len() ==> !(#[trigger] text[i] == a && text[i + 1] == b)
}

proof fn lemma_no_pair_no_mention(text: Seq<char>, word: Seq<char>)
    requires
        word.len() >= 2,
        no_pair(text, word[0], word[1]),
    ensures
        !mentions(text, word),
{
    if mentions(text, word) {
        let i = choose|i: int| 0 <= i && i + word.len() <= text.len() && #[trigger] text.subrange(i, i + word.len()) == word;
        assert(text.subrange(i, i + word.len())[0] == text[i]);
        assert(text.subrange(i, i + word.len())[1] == text[i + 1]);
    }
}

/// No explanation key mentions the product name ("taktakk") or learning
/// ("learn"): a key may be shown on a device that is being inspected.
pub proof fn lemma_explanation_keys_are_neutral(permission: AppPermission)
    ensures
        !mentions(explanation_key_for(permission), "taktakk"@),
        !mentions(explanation_key_for(permission), "learn"@),
{
    reveal_strlit("taktakk");
    reveal_strlit("learn");
    reveal_strlit("perm.bluetooth.reason");
    reveal_strlit("perm.network.reason");
    reveal_strlit("perm.storage.reason");
    reveal_strlit("perm.audio.reason");
    reveal_strlit("perm.camera.reason");
    let key = explanation_key_for(permission);
    assert(no_pair(key, 't', 'a'));
    assert(no_pair(key, 'l', 'e'));
    lemma_no_pair_no_mention(key, "taktakk"@);
    lemma_no_pair_no_mention(key, "learn"@);
}

/// A pending permission request.
#[derive(Debug, Clone, Copy)]
pub struct PermissionRequest {
    pub permission: AppPermission,
    /// The i18n key for the user-facing explanation.
    pub explanation_key: &'static str,
    /// Whether to show the request in the *unlocked* shell only.
    pub unlocked_only: bool,
}

/// Build the permission requests for a trigger action: one per required
/// permission, in the same order, each with its explanation key, and each to
/// be shown in the unlocked shell only.
pub fn build_requests(action: &TriggerAction) -> (requests: Vec<PermissionRequest>)
    ensures
        requests@.len() == permissions_for(*action).len(),
        forall|i: int| 0 <= i < requests@.len() ==> {
            &&& (#[trigger] requests@[i]).permission == permissions_for(*action)[i]
            &&& requests@[i].explanation_key@ == explanation_key_for(permissions_for(*action)[i])
            &&& requests@[i].unlocked_only
        },
{
    let perms = required_permissions(action);
    let mut requests: Vec<PermissionRequest> = Vec::new();
    for k in 0..perms.len()
        invariant
            perms@ == permissions_for(*action),
            requests@.len() == k,
            forall|i: int| 0 <= i < k ==> {
                &&& (#[trigger] requests@[i]).permission == perms@[i]
                &&& requests@[i].explanation_key@ == explanation_key_for(perms@[i])
                &&& requests@[i].unlocked_only
            },
    {
        let p = perms[k];
        let key = user_safe_explanation_key(&p);
        requests.push(PermissionRequest { permission: p, explanation_key: key, unlocked_only: true });
    }
    requests
}

} // verus!
