//! Where the store keeps each record on disk. A path is a list of
//! components below the data directory; apart from fixed folder and file
//! names, a component is a standard name or the base32 text of a document
//! id, never anything a client chose freely.

use vstd::prelude::*;
use vstd::utf8::encode_utf8;
use crate::data::{DocumentID, DOCUMENT_ID_LENGTH_BYTES};
use crate::primitives::base32::{base32_decode, base32_decoded, base32_encode, base32_encoded};
use crate::server::object_store::StoreView;
use crate::validation::is_standard_name;

verus! {

/// The components of a path.
pub open spec fn path_view(path: Seq<String>) -> Seq<Seq<char>> {
    Seq::new(path.len(), |i: int| path[i]@)
}

/// The name of a folder or file that the layout fixes.
pub open spec fn is_fixed_name(component: Seq<char>) -> bool {
    ||| component == "organizations"@
    ||| component == "public_key"@
    ||| component == "argon_config"@
    ||| component == "users"@
    ||| component == "documents_keys"@
    ||| component == "documents"@
}

/// The base32 text of a document id of 32 bytes.
pub open spec fn is_document_file_name(component: Seq<char>) -> bool {
    exists|document_id: Seq<u8>|
        document_id.len() == DOCUMENT_ID_LENGTH_BYTES && component == #[trigger] base32_encoded(
            document_id,
        )
}

/// A component that may be handed to the file system.
pub open spec fn is_safe_component(component: Seq<char>) -> bool {
    is_fixed_name(component) || is_standard_name(component) || is_document_file_name(component)
}

/// A path all of whose components may be handed to the file system.
pub open spec fn is_safe_path(path: Seq<Seq<char>>) -> bool {
    forall|i: int| 0 <= i < path.len() ==> is_safe_component(#[trigger] path[i])
}

/// `organizations/<organization>`
pub open spec fn organization_directory_path(organization_name: Seq<char>) -> Seq<Seq<char>> {
    seq!["organizations"@, organization_name]
}

/// `organizations/<organization>/public_key`
pub open spec fn organization_public_key_file(organization_name: Seq<char>) -> Seq<Seq<char>> {
    organization_directory_path(organization_name).push("public_key"@)
}

/// `organizations/<organization>/argon_config`
pub open spec fn organization_argon_config_file(organization_name: Seq<char>) -> Seq<Seq<char>> {
    organization_directory_path(organization_name).push("argon_config"@)
}

/// `organizations/<organization>/users`
pub open spec fn organization_users_path(organization_name: Seq<char>) -> Seq<Seq<char>> {
    organization_directory_path(organization_name).push("users"@)
}

/// `organizations/<organization>/users/<user>`
pub open spec fn user_file(organization_name: Seq<char>, user_name: Seq<char>) -> Seq<Seq<char>> {
    organization_users_path(organization_name).push(user_name)
}

/// `organizations/<organization>/documents_keys`
pub open spec fn organization_document_keys_path(organization_name: Seq<char>) -> Seq<Seq<char>> {
    organization_directory_path(organization_name).push("documents_keys"@)
}

/// `organizations/<organization>/documents_keys/<base32 of the id>`
pub open spec fn organization_document_key_file(
    organization_name: Seq<char>,
    document_id: Seq<u8>,
) -> Seq<Seq<char>> {
    organization_document_keys_path(organization_name).push(base32_encoded(document_id))
}

/// `documents/<base32 of the id>`
pub open spec fn document_file(document_id: Seq<u8>) -> Seq<Seq<char>> {
    seq!["documents"@, base32_encoded(document_id)]
}

/// The folder of an organization.
pub fn organization_directory(organization_name: &str) -> (path: Vec<String>)
    requires
        is_standard_name(organization_name@),
    ensures
        path_view(path@) == organization_directory_path(organization_name@),
        is_safe_path(path_view(path@)),
{
    let mut path: Vec<String> = Vec::new();
    path.push("organizations".to_owned());
    path.push(organization_name.to_owned());
    assert(path_view(path@) =~= organization_directory_path(organization_name@));
    path
}

/// The file of an organization's public key.
pub fn organization_public_key_path(organization_name: &str) -> (path: Vec<String>)
    requires
        is_standard_name(organization_name@),
    ensures
        path_view(path@) == organization_public_key_file(organization_name@),
        is_safe_path(path_view(path@)),
{
    let mut path = organization_directory(organization_name);
    let ghost folder = path_view(path@);
    path.push("public_key".to_owned());
    assert(path_view(path@) =~= folder.push("public_key"@));
    path
}

/// The file of an organization's hash parameters.
pub fn organization_argon_config_path(organization_name: &str) -> (path: Vec<String>)
    requires
        is_standard_name(organization_name@),
    ensures
        path_view(path@) == organization_argon_config_file(organization_name@),
        is_safe_path(path_view(path@)),
{
    let mut path = organization_directory(organization_name);
    let ghost folder = path_view(path@);
    path.push("argon_config".to_owned());
    assert(path_view(path@) =~= folder.push("argon_config"@));
    path
}

/// The folder of an organization's users.
pub fn organization_users_directory(organization_name: &str) -> (path: Vec<String>)
    requires
        is_standard_name(organization_name@),
    ensures
        path_view(path@) == organization_users_path(organization_name@),
        is_safe_path(path_view(path@)),
{
    let mut path = organization_directory(organization_name);
    let ghost folder = path_view(path@);
    path.push("users".to_owned());
    assert(path_view(path@) =~= folder.push("users"@));
    path
}

/// The file of one user of an organization.
pub fn user_file_path(organization_name: &str, username: &str) -> (path: Vec<String>)
    requires
        is_standard_name(organization_name@),
        is_standard_name(username@),
    ensures
        path_view(path@) == user_file(organization_name@, username@),
        is_safe_path(path_view(path@)),
{
    let mut path = organization_users_directory(organization_name);
    let ghost folder = path_view(path@);
    path.push(username.to_owned());
    assert(path_view(path@) =~= folder.push(username@));
    path
}

/// The folder of an organization's document keys.
pub fn organization_document_keys_directory(organization_name: &str) -> (path: Vec<String>)
    requires
        is_standard_name(organization_name@),
    ensures
        path_view(path@) == organization_document_keys_path(organization_name@),
        is_safe_path(path_view(path@)),
{
    let mut path = organization_directory(organization_name);
    let ghost folder = path_view(path@);
    path.push("documents_keys".to_owned());
    assert(path_view(path@) =~= folder.push("documents_keys"@));
    path
}

/// The file of the key that an organization holds for a document.
pub fn organization_document_key_path(organization_name: &str, document_id: &DocumentID) -> (path:
    Vec<String>)
    requires
        is_standard_name(organization_name@),
        document_id@.len() == DOCUMENT_ID_LENGTH_BYTES,
    ensures
        path_view(path@) == organization_document_key_file(organization_name@, document_id@),
        is_safe_path(path_view(path@)),
{
    let mut path = organization_document_keys_directory(organization_name);
    let ghost folder = path_view(path@);
    path.push(base32_encode(document_id.as_slice()));
    assert(path_view(path@) =~= folder.push(base32_encoded(document_id@)));
    assert(is_document_file_name(base32_encoded(document_id@)));
    path
}

/// The file of a document's payload.
pub fn document_path(document_id: &DocumentID) -> (path: Vec<String>)
    requires
        document_id@.len() == DOCUMENT_ID_LENGTH_BYTES,
    ensures
        path_view(path@) == document_file(document_id@),
        is_safe_path(path_view(path@)),
{
    let mut path: Vec<String> = Vec::new();
    path.push("documents".to_owned());
    path.push(base32_encode(document_id.as_slice()));
    assert(path_view(path@) =~= document_file(document_id@));
    assert(is_document_file_name(base32_encoded(document_id@)));
    path
}

/// Length of the file name of a document: the base32 text of 32 bytes.
pub const DOCUMENT_FILE_NAME_LENGTH: usize = 56;

/// The document id that a file name stands for: the 32 bytes that a name of
/// 56 bytes decodes to. Nothing for any other name.
pub fn document_id_from_file_name(file_name: &str) -> (document_id: Option<DocumentID>)
    ensures
        document_id.is_some() == (encode_utf8(file_name@).len() == DOCUMENT_FILE_NAME_LENGTH
            && base32_decoded(file_name@).is_some() && base32_decoded(file_name@).unwrap().len()
            == DOCUMENT_ID_LENGTH_BYTES),
        document_id.is_some() ==> base32_decoded(file_name@) == Some(document_id.unwrap()@),
{
    if file_name.as_bytes().len() != DOCUMENT_FILE_NAME_LENGTH {
        return None;
    }
    match base32_decode(file_name) {
        Some(bytes) => if bytes.len() == DOCUMENT_ID_LENGTH_BYTES {
            Some(bytes)
        } else {
            None
        },
        None => None,
    }
}

/// Every record of a well-formed store lies at a safe path: the files of an
/// organization and of its users and document keys, and the payload of every
/// document.
pub proof fn lemma_stored_paths_are_safe(
    store: StoreView,
    organization: int,
    user: int,
    key: int,
    document: int,
)
    requires
        store.wf(),
    ensures
        0 <= organization < store.organizations.len() ==> is_safe_path(
            organization_public_key_file(store.organizations[organization].name),
        ) && is_safe_path(organization_argon_config_file(store.organizations[organization].name))
            && is_safe_path(organization_users_path(store.organizations[organization].name))
            && is_safe_path(
            organization_document_keys_path(store.organizations[organization].name),
        ),
        0 <= organization < store.organizations.len() && 0 <= user
            < store.organizations[organization].users.len() ==> is_safe_path(
            user_file(
                store.organizations[organization].name,
                store.organizations[organization].users[user].name,
            ),
        ),
        0 <= organization < store.organizations.len() && 0 <= key
            < store.organizations[organization].document_keys.len() ==> is_safe_path(
            organization_document_key_file(
                store.organizations[organization].name,
                store.organizations[organization].document_keys[key].document_id,
            ),
        ),
        0 <= document < store.documents.len() ==> is_safe_path(
            document_file(store.documents[document].document_id),
        ),
{
    if 0 <= organization < store.organizations.len() {
        let record = store.organizations[organization];
        assert(record.wf());
        if 0 <= user < record.users.len() {
            assert(is_standard_name(record.users[user].name));
        }
        if 0 <= key < record.document_keys.len() {
            assert(record.document_keys[key].document_id.len() == DOCUMENT_ID_LENGTH_BYTES);
            assert(is_document_file_name(base32_encoded(record.document_keys[key].document_id)));
        }
    }
    if 0 <= document < store.documents.len() {
        assert(store.documents[document].document_id.len() == DOCUMENT_ID_LENGTH_BYTES);
        assert(is_document_file_name(base32_encoded(store.documents[document].document_id)));
    }
}

} // verus!
