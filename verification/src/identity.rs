//! Mod identity resolver: tries the metadata formats of a mod archive in a
//! fixed order and takes the first that is usable.

use crate::archive::{payload_named, Archive, EntryModel, Payload};
use crate::error::MinecraftError;
use crate::json::{json_string, json_strings, parse_relaxed, relaxed_json, ParseError};
use crate::sanitize::{sanitize, sanitized};
use vstd::prelude::*;

verus! {

/// `toml::Value`, a parsed TOML value.
#[verifier::external_type_specification]
#[verifier::external_body]
pub struct ExTomlValue(toml::Value);

/// `toml::de::Error`, the error of the TOML parser.
#[verifier::external_type_specification]
#[verifier::external_body]
pub struct ExTomlError(toml::de::Error);

/// The document that a TOML text holds, if it is valid TOML.
pub uninterp spec fn toml_of(text: Seq<char>) -> Option<toml::Value>;

/// The first element of the array that stands under `key` in a table, if
/// there is such an array and it is not empty.
pub uninterp spec fn toml_first_of(doc: toml::Value, key: Seq<char>) -> Option<toml::Value>;

/// The members of a TOML table whose values are strings, by their keys.
/// Empty for a value that is not a table.
pub uninterp spec fn toml_strings(doc: toml::Value) -> Map<Seq<char>, Seq<char>>;

/// `str::parse` into a `toml::Value`: parses a whole TOML document.
#[verifier::external_body]
fn toml_parse(text: &str) -> (r: Result<toml::Value, toml::de::Error>)
    ensures
        r is Ok <==> toml_of(text@) is Some,
        r matches Ok(doc) ==> toml_of(text@) == Some(doc),
{
    text.parse::<toml::Value>()
}

/// `Value::get` with a string index, `Value::as_array`, then the slice's
/// `first`: a copy of the first element of the array under `key`.
#[verifier::external_body]
fn toml_first(doc: &toml::Value, key: &str) -> (r: Option<toml::Value>)
    ensures
        r == toml_first_of(*doc, key@),
{
    doc.get(key).and_then(|v| v.as_array()).and_then(|a| a.first()).cloned()
}

/// `Value::get` with a string index, then `Value::as_str`: the member of
/// that name, if the value is a table, has it, and it is a string.
#[verifier::external_body]
fn toml_string(doc: &toml::Value, key: &str) -> (r: Option<String>)
    ensures
        r is Some <==> toml_strings(*doc).dom().contains(key@),
        r matches Some(s) ==> s@ == toml_strings(*doc)[key@],
{
    doc.get(key).and_then(|v| v.as_str()).map(|s| s.to_string())
}

/// Who a mod is.
#[derive(Debug)]
pub struct ModIdentity {
    /// The mod's id; never empty.
    pub id: String,
    pub display_name: String,
    pub version: String,
}

/// What a `ModIdentity` stands for.
pub struct IdentityModel {
    pub id: Seq<char>,
    pub display_name: Seq<char>,
    pub version: Seq<char>,
}

impl ModIdentity {
    /// The identity as plain values.
    pub open spec fn model(&self) -> IdentityModel {
        IdentityModel { id: self.id@, display_name: self.display_name@, version: self.version@ }
    }
}

/// Why the identity of a mod cannot be told.
pub enum IdentityFailure {
    /// The bytes of this metadata file cannot be read.
    Unreadable(Seq<char>),
    /// The text of this metadata file is beyond recovery.
    Parse(Seq<char>),
    /// No metadata format is usable.
    NotFound,
}

/// What one metadata format says.
pub enum ProbeModel {
    Found(IdentityModel),
    /// The format is absent or lacks a required field: the next one is tried.
    Unusable,
    Failed(IdentityFailure),
}

/// Name of the Fabric metadata entry.
pub open spec fn fabric_path() -> Seq<char> {
    "fabric.mod.json"@
}

/// Name of the Forge metadata entry.
pub open spec fn forge_path() -> Seq<char> {
    "META-INF/mods.toml"@
}

/// Name of the manifest entry.
pub open spec fn manifest_path() -> Seq<char> {
    "META-INF/MANIFEST.MF"@
}

/// What the text of a `fabric.mod.json` says: the identity needs the string
/// members `id` (not empty), `name` and `version`.
pub open spec fn fabric_identity(text: Seq<char>) -> ProbeModel {
    match relaxed_json(text) {
        None => ProbeModel::Failed(IdentityFailure::Parse(fabric_path())),
        Some(doc) => {
            let members = json_strings(doc);
            if members.dom().contains("id"@) && members.dom().contains("name"@)
                && members.dom().contains("version"@) && members["id"@].len() > 0 {
                ProbeModel::Found(
                    IdentityModel {
                        id: members["id"@],
                        display_name: members["name"@],
                        version: members["version"@],
                    },
                )
            } else {
                ProbeModel::Unusable
            }
        },
    }
}

/// What the text of a `mods.toml` says: the first element of `mods` must
/// have a `modId` that is not empty; `displayName` defaults to it and
/// `version` to `unknown`.
pub open spec fn forge_identity(text: Seq<char>) -> ProbeModel {
    match toml_of(text) {
        None => ProbeModel::Failed(IdentityFailure::Parse(forge_path())),
        Some(doc) => match toml_first_of(doc, "mods"@) {
            None => ProbeModel::Unusable,
            Some(first) => {
                let members = toml_strings(first);
                if members.dom().contains("modId"@) && members["modId"@].len() > 0 {
                    ProbeModel::Found(
                        IdentityModel {
                            id: members["modId"@],
                            display_name: if members.dom().contains("displayName"@) {
                                members["displayName"@]
                            } else {
                                members["modId"@]
                            },
                            version: if members.dom().contains("version"@) {
                                members["version"@]
                            } else {
                                "unknown"@
                            },
                        },
                    )
                } else {
                    ProbeModel::Unusable
                }
            },
        },
    }
}

/// What the Fabric metadata of an archive says.
pub open spec fn fabric_probe(entries: Seq<EntryModel>) -> ProbeModel {
    match payload_named(entries, fabric_path()) {
        Some(Payload::Bytes(data)) => fabric_identity(sanitized(data)),
        Some(Payload::Broken) => ProbeModel::Failed(IdentityFailure::Unreadable(fabric_path())),
        _ => ProbeModel::Unusable,
    }
}

/// What the Forge metadata of an archive says.
pub open spec fn forge_probe(entries: Seq<EntryModel>) -> ProbeModel {
    match payload_named(entries, forge_path()) {
        Some(Payload::Bytes(data)) => forge_identity(sanitized(data)),
        Some(Payload::Broken) => ProbeModel::Failed(IdentityFailure::Unreadable(forge_path())),
        _ => ProbeModel::Unusable,
    }
}

/// The manifest says nothing of the mod; that it is there is enough for the
/// identity of an unknown mod.
pub open spec fn manifest_probe(entries: Seq<EntryModel>) -> ProbeModel {
    match payload_named(entries, manifest_path()) {
        Some(Payload::Bytes(_)) | Some(Payload::Broken) => ProbeModel::Found(
            IdentityModel { id: "unknown"@, display_name: "unknown"@, version: "unknown"@ },
        ),
        _ => ProbeModel::Unusable,
    }
}

/// The identity of the mod in an archive: what the first usable format says,
/// in the order `fabric.mod.json`, `META-INF/mods.toml`,
/// `META-INF/MANIFEST.MF`.
pub open spec fn identity_of(entries: Seq<EntryModel>) -> Result<IdentityModel, IdentityFailure> {
    match fabric_probe(entries) {
        ProbeModel::Found(identity) => Ok(identity),
        ProbeModel::Failed(failure) => Err(failure),
        ProbeModel::Unusable => match forge_probe(entries) {
            ProbeModel::Found(identity) => Ok(identity),
            ProbeModel::Failed(failure) => Err(failure),
            ProbeModel::Unusable => match manifest_probe(entries) {
                ProbeModel::Found(identity) => Ok(identity),
                ProbeModel::Failed(failure) => Err(failure),
                ProbeModel::Unusable => Err(IdentityFailure::NotFound),
            },
        },
    }
}

/// The answer of one metadata format.
#[derive(Debug)]
pub enum Probe {
    Found(ModIdentity),
    Unusable,
    Failed(MinecraftError),
}

/// The failure that an error of the resolver stands for.
pub open spec fn failure_of(e: MinecraftError) -> Option<IdentityFailure> {
    match e {
        MinecraftError::EntryUnreadable(path) => Some(IdentityFailure::Unreadable(path@)),
        MinecraftError::Parse(p) => Some(IdentityFailure::Parse(p.path@)),
        MinecraftError::IdentityNotFound => Some(IdentityFailure::NotFound),
        _ => None,
    }
}

impl Probe {
    /// The answer agrees with a model of it.
    pub open spec fn shows(&self, model: ProbeModel) -> bool {
        match (*self, model) {
            (Probe::Found(identity), ProbeModel::Found(m)) => identity.model() == m,
            (Probe::Unusable, ProbeModel::Unusable) => true,
            (Probe::Failed(e), ProbeModel::Failed(f)) => failure_of(e) == Some(f),
            _ => false,
        }
    }
}

/// Reads the identity from the sanitized text of a `fabric.mod.json`.
pub fn read_fabric_identity(text: &str) -> (r: Probe)
    ensures
        r.shows(fabric_identity(text@)),
        r matches Probe::Found(identity) ==> identity.id@.len() > 0,
{
    let doc = match parse_relaxed(text, "fabric.mod.json") {
        Ok(doc) => doc,
        Err(e) => {
            return Probe::Failed(MinecraftError::Parse(e));
        },
    };
    let id = json_string(&doc, "id");
    let name = json_string(&doc, "name");
    let version = json_string(&doc, "version");
    match (id, name, version) {
        (Some(id), Some(name), Some(version)) => {
            if id.as_str().is_empty() {
                Probe::Unusable
            } else {
                Probe::Found(ModIdentity { id, display_name: name, version })
            }
        },
        _ => Probe::Unusable,
    }
}

/// Reads the identity from the sanitized text of a `mods.toml`.
pub fn read_forge_identity(text: &str) -> (r: Probe)
    ensures
        r.shows(forge_identity(text@)),
        r matches Probe::Found(identity) ==> identity.id@.len() > 0,
{
    let doc = match toml_parse(text) {
        Ok(doc) => doc,
        Err(_) => {
            return Probe::Failed(
                MinecraftError::Parse(ParseError { path: "META-INF/mods.toml".to_owned() }),
            );
        },
    };
    let first = match toml_first(&doc, "mods") {
        Some(first) => first,
        None => {
            return Probe::Unusable;
        },
    };
    let id = match toml_string(&first, "modId") {
        Some(id) => id,
        None => {
            return Probe::Unusable;
        },
    };
    if id.as_str().is_empty() {
        return Probe::Unusable;
    }
    let display_name = match toml_string(&first, "displayName") {
        Some(name) => name,
        None => id.clone(),
    };
    let version = match toml_string(&first, "version") {
        Some(version) => version,
        None => "unknown".to_owned(),
    };
    Probe::Found(ModIdentity { id, display_name, version })
}

/// Asks `fabric.mod.json`.
pub fn probe_fabric(archive: &mut Archive) -> (r: Probe)
    ensures
        final(archive).entries() == old(archive).entries(),
        r.shows(fabric_probe(old(archive).entries())),
        r matches Probe::Found(identity) ==> identity.id@.len() > 0,
{
    match archive.read_entry("fabric.mod.json") {
        Ok(data) => {
            let text = sanitize(data.as_slice());
            read_fabric_identity(text.as_str())
        },
        Err(MinecraftError::EntryUnreadable(path)) => Probe::Failed(
            MinecraftError::EntryUnreadable(path),
        ),
        Err(_) => Probe::Unusable,
    }
}

/// Asks `META-INF/mods.toml`.
pub fn probe_forge(archive: &mut Archive) -> (r: Probe)
    ensures
        final(archive).entries() == old(archive).entries(),
        r.shows(forge_probe(old(archive).entries())),
        r matches Probe::Found(identity) ==> identity.id@.len() > 0,
{
    match archive.read_entry("META-INF/mods.toml") {
        Ok(data) => {
            let text = sanitize(data.as_slice());
            read_forge_identity(text.as_str())
        },
        Err(MinecraftError::EntryUnreadable(path)) => Probe::Failed(
            MinecraftError::EntryUnreadable(path),
        ),
        Err(_) => Probe::Unusable,
    }
}

/// Asks `META-INF/MANIFEST.MF`.
pub fn probe_manifest(archive: &mut Archive) -> (r: Probe)
    ensures
        final(archive).entries() == old(archive).entries(),
        r.shows(manifest_probe(old(archive).entries())),
        r matches Probe::Found(identity) ==> identity.id@.len() > 0,
{
    match archive.read_entry("META-INF/MANIFEST.MF") {
        Ok(_) | Err(MinecraftError::EntryUnreadable(_)) => {
            proof {
                reveal_strlit("unknown");
            }
            Probe::Found(
                ModIdentity {
                    id: "unknown".to_owned(),
                    display_name: "unknown".to_owned(),
                    version: "unknown".to_owned(),
                },
            )
        },
        Err(_) => Probe::Unusable,
    }
}

/// Resolves the identity of the mod in the archive.
pub fn resolve_identity(archive: &mut Archive) -> (r: Result<ModIdentity, MinecraftError>)
    ensures
        final(archive).entries() == old(archive).entries(),
        match r {
            Ok(identity) => identity_of(old(archive).entries()) == Ok::<
                IdentityModel,
                IdentityFailure,
            >(identity.model()) && identity.id@.len() > 0,
            Err(e) => failure_of(e) matches Some(f) && identity_of(old(archive).entries()) == Err::<
                IdentityModel,
                IdentityFailure,
            >(f),
        },
{
    match probe_fabric(archive) {
        Probe::Found(identity) => {
            return Ok(identity);
        },
        Probe::Failed(e) => {
            return Err(e);
        },
        Probe::Unusable => {},
    }
    match probe_forge(archive) {
        Probe::Found(identity) => {
            return Ok(identity);
        },
        Probe::Failed(e) => {
            return Err(e);
        },
        Probe::Unusable => {},
    }
    match probe_manifest(archive) {
        Probe::Found(identity) => Ok(identity),
        Probe::Failed(e) => Err(e),
        Probe::Unusable => Err(MinecraftError::IdentityNotFound),
    }
}

/// The id, the name and the version of the mod in the archive.
pub fn extract_mod_info(archive: &mut Archive) -> (r: Result<
    (String, String, String),
    MinecraftError,
>)
    ensures
        final(archive).entries() == old(archive).entries(),
        match r {
            Ok(info) => identity_of(old(archive).entries()) == Ok::<IdentityModel, IdentityFailure>(
                IdentityModel { id: info.0@, display_name: info.1@, version: info.2@ },
            ) && info.0@.len() > 0,
            Err(e) => failure_of(e) matches Some(f) && identity_of(old(archive).entries()) == Err::<
                IdentityModel,
                IdentityFailure,
            >(f),
        },
{
    match resolve_identity(archive) {
        Ok(identity) => Ok((identity.id, identity.display_name, identity.version)),
        Err(e) => Err(e),
    }
}

} // verus!
