//! Assets: the requests sent to the asset service, reading the archives it
//! returns, and rendering the asset map by substituting asset paths.

use vstd::prelude::*;
use vstd::utf8::{decode_utf8, decode_utf8_encode_utf8, encode_utf8, valid_utf8};

use crate::archive::{open_archive, read_entry, zip_archive, EntryError};
use crate::config::Config;
use crate::errors::{asset_error, not_found, AppError};
use crate::text::{
    chars_of, decimal, decimal_string, lemma_replace_absent, occurs_in, replace_chars, replaced,
    string_from_utf8, string_of,
};

verus! {

/// Where an asset is stored, as the asset map document lists it.
#[derive(Clone, Debug)]
pub struct AssetInfo {
    pub path: String,
}

/// The asset map document: placeholder keys, each with the asset it stands
/// for, in the order in which they are substituted. No key occurs twice.
pub struct Asset {
    entries: Vec<(String, AssetInfo)>,
}

/// The entries of an asset map, each as (key, path).
pub open spec fn entries_view(entries: Seq<(String, AssetInfo)>) -> Seq<(Seq<char>, Seq<char>)> {
    entries.map_values(|e: (String, AssetInfo)| (e.0@, e.1.path@))
}

/// No key occurs twice.
pub open spec fn keys_distinct(entries: Seq<(Seq<char>, Seq<char>)>) -> bool {
    forall|i: int, j: int|
        0 <= i < entries.len() && 0 <= j < entries.len() && i != j ==> #[trigger] entries[i].0
            != #[trigger] entries[j].0
}

impl View for Asset {
    type V = Seq<(Seq<char>, Seq<char>)>;

    closed spec fn view(&self) -> Seq<(Seq<char>, Seq<char>)> {
        entries_view(self.entries@)
    }
}

impl Asset {
    #[verifier::type_invariant]
    closed spec fn wf(self) -> bool {
        keys_distinct(entries_view(self.entries@))
    }

    /// The asset map with no entries.
    pub fn new() -> (asset: Asset)
        ensures
            asset@ == Seq::<(Seq<char>, Seq<char>)>::empty(),
    {
        let asset = Asset { entries: Vec::new() };
        assert(asset@ =~= Seq::<(Seq<char>, Seq<char>)>::empty());
        asset
    }

    /// The entries, each as (key, asset), in substitution order.
    pub fn entries(&self) -> (entries: &[(String, AssetInfo)])
        ensures
            entries_view(entries@) == self@,
    {
        self.entries.as_slice()
    }

    /// The number of entries.
    pub fn len(&self) -> (n: usize)
        ensures
            n == self@.len(),
            keys_distinct(self@),
    {
        proof {
            use_type_invariant(self);
        }
        self.entries.len()
    }

    /// Sets the asset of `key`: an entry with that key gets the new path in
    /// its place; otherwise the entry is added last.
    pub fn insert(&mut self, key: String, info: AssetInfo)
        ensures
            forall|i: int|
                0 <= i < old(self)@.len() && #[trigger] old(self)@[i].0 == key@
                    ==> final(self)@ == old(self)@.update(i, (key@, info.path@)),
            (forall|i: int| 0 <= i < old(self)@.len() ==> #[trigger] old(self)@[i].0 != key@)
                ==> final(self)@ == old(self)@.push((key@, info.path@)),
            keys_distinct(final(self)@),
    {
        proof {
            use_type_invariant(&*self);
        }
        let n = self.entries.len();
        let mut i: usize = 0;
        while i < n
            invariant
                n == self.entries@.len(),
                self.entries@ == old(self).entries@,
                i <= n,
                keys_distinct(entries_view(self.entries@)),
                forall|j: int| 0 <= j < i ==> #[trigger] entries_view(self.entries@)[j].0 != key@,
            decreases n - i,
        {
            if self.entries[i].0 == key {
                let ghost before = entries_view(self.entries@);
                assert(before[i as int].0 == key@);
                let mut entries: Vec<(String, AssetInfo)> = Vec::new();
                std::mem::swap(&mut entries, &mut self.entries);
                entries.set(i, (key, info));
                assert(entries_view(entries@) =~= before.update(i as int, (key@, info.path@)));
                assert forall|j: int| 0 <= j < before.len() implies #[trigger] entries_view(
                    entries@,
                )[j].0 == before[j].0 by {}
                assert(keys_distinct(entries_view(entries@)));
                assert forall|k: int|
                    0 <= k < before.len() && #[trigger] before[k].0 == key@ implies k == i by {}
                self.entries = entries;
                return;
            }
            i = i + 1;
        }
        let ghost before = entries_view(self.entries@);
        let ghost pair = (key@, info.path@);
        let mut entries: Vec<(String, AssetInfo)> = Vec::new();
                std::mem::swap(&mut entries, &mut self.entries);
        entries.push((key, info));
        assert(entries_view(entries@) =~= before.push(pair));
        assert(keys_distinct(entries_view(entries@)));
        self.entries = entries;
    }
}


/// `document` after substituting, entry by entry in order, every occurrence
/// of the entry's key by the entry's path.
pub open spec fn with_paths(document: Seq<char>, entries: Seq<(Seq<char>, Seq<char>)>) -> Seq<char>
    decreases entries.len(),
{
    if entries.len() == 0 {
        document
    } else {
        with_paths(replaced(document, entries[0].0, entries[0].1), entries.drop_first())
    }
}

/// Keys none of which occurs in the document leave it unchanged.
pub proof fn lemma_render_without_keys(document: Seq<char>, entries: Seq<(Seq<char>, Seq<char>)>)
    requires
        forall|i: int|
            0 <= i < entries.len() ==> (#[trigger] entries[i]).0.len() > 0 && !occurs_in(
                entries[i].0,
                document,
            ),
    ensures
        with_paths(document, entries) == document,
    decreases entries.len(),
{
    if entries.len() > 0 {
        lemma_replace_absent(document, entries[0].0, entries[0].1);
        let rest = entries.drop_first();
        assert forall|i: int| 0 <= i < rest.len() implies (#[trigger] rest[i]).0.len() > 0
            && !occurs_in(rest[i].0, document) by {
            assert(rest[i] == entries[i + 1]);
        }
        lemma_render_without_keys(document, rest);
    }
}

/// Rendering with an entry and then further entries replaces the entry's
/// key by its path, whether or not the key occurs, and renders the result
/// with the further entries.
pub proof fn lemma_render_first_entry(
    document: Seq<char>,
    key: Seq<char>,
    path: Seq<char>,
    rest: Seq<(Seq<char>, Seq<char>)>,
)
    ensures
        with_paths(document, seq![(key, path)] + rest) == with_paths(replaced(document, key, path), rest),
{
    let entries = seq![(key, path)] + rest;
    assert(entries[0] == (key, path));
    assert(entries.drop_first() =~= rest);
}

/// Rendering with one entry replaces its key by its path.
pub proof fn lemma_render_single(document: Seq<char>, key: Seq<char>, path: Seq<char>)
    ensures
        with_paths(document, seq![(key, path)]) == replaced(document, key, path),
{
    lemma_render_first_entry(document, key, path, Seq::empty());
    assert(seq![(key, path)] + Seq::<(Seq<char>, Seq<char>)>::empty() =~= seq![(key, path)]);
}

/// Rendering with two lists of entries one after the other renders with the
/// first list and then renders that result with the second.
pub proof fn lemma_render_split(
    document: Seq<char>,
    first: Seq<(Seq<char>, Seq<char>)>,
    second: Seq<(Seq<char>, Seq<char>)>,
)
    ensures
        with_paths(document, first + second) == with_paths(with_paths(document, first), second),
    decreases first.len(),
{
    if first.len() == 0 {
        assert(first + second =~= second);
    } else {
        let entry = first[0];
        lemma_render_first_entry(document, entry.0, entry.1, first.drop_first() + second);
        assert(first + second =~= seq![entry] + (first.drop_first() + second));
        lemma_render_split(replaced(document, entry.0, entry.1), first.drop_first(), second);
    }
}

/// Renders the asset map: the main document with every key of `asset`
/// replaced by its asset's path, keys taken in the order of `asset`.
pub fn render_assetmap(main_document: &str, asset: &Asset) -> (rendered: String)
    ensures
        rendered@ == with_paths(main_document@, asset@),
{
    let mut current = chars_of(main_document);
    let n = asset.entries.len();
    let mut i: usize = 0;
    assert(asset@.skip(0) =~= asset@);
    while i < n
        invariant
            n == asset@.len(),
            i <= n,
            with_paths(main_document@, asset@) == with_paths(current@, asset@.skip(i as int)),
        decreases n - i,
    {
        let entry = &asset.entries[i];
        let key = chars_of(entry.0.as_str());
        let path = chars_of(entry.1.path.as_str());
        assert(asset@[i as int] == (key@, path@));
        assert(asset@.skip(i as int).drop_first() =~= asset@.skip(i + 1));
        current = replace_chars(&current, &key, &path);
        i = i + 1;
    }
    assert(asset@.skip(n as int) =~= Seq::<(Seq<char>, Seq<char>)>::empty());
    string_of(current)
}

/// The name of the main document inside an asset definition archive.
pub open spec fn main_document_name() -> Seq<char> {
    "asset_config/main.json"@
}

/// The name of the asset list inside an asset definition archive.
pub open spec fn asset_list_name() -> Seq<char> {
    "asset_config/main.assets"@
}

/// What an asset definition archive holds: the main document's text and the
/// asset list, still encoded. Where the asset list's data failed to read,
/// `asset_list` holds the bytes read before the failure and
/// `asset_list_error` the failure's text.
pub struct AssetSources {
    pub main_document: String,
    pub asset_list: Vec<u8>,
    pub asset_list_error: Option<String>,
}

/// The text of the error met when the main document is not UTF-8.
pub open spec fn not_utf8_text() -> Seq<char> {
    "stream did not contain valid UTF-8"@
}

/// Whether `res` is `Err(AppError::Asset(_))` carrying `text`.
pub open spec fn is_asset_error<T>(res: Result<T, AppError>, text: Seq<char>) -> bool {
    match res {
        Err(AppError::Asset(message)) => message@ == text,
        _ => false,
    }
}

/// What reading the sources out of the archive held in `archive` gives:
/// an archive error with the zip crate's text where the archive does not
/// open, the main document is missing or unreadable, or is not UTF-8, or the
/// asset list does not open; otherwise the decoded main document with the
/// asset list's bytes, or, where its data fails to read, the bytes read
/// before the failure and the failure's text.
pub open spec fn sources_outcome(archive: Seq<u8>, res: Result<AssetSources, AppError>) -> bool {
    match zip_archive(archive) {
        Err(text) => is_asset_error(res, text),
        Ok(contents) => {
            let files = contents.0;
            let failures = contents.1;
            let main = main_document_name();
            let list = asset_list_name();
            if !files.dom().contains(main) {
                is_asset_error(res, failures[main].1)
            } else if !valid_utf8(files[main]) {
                is_asset_error(res, not_utf8_text())
            } else if !files.dom().contains(list) && !failures[list].0 {
                is_asset_error(res, failures[list].1)
            } else {
                match res {
                    Ok(sources) => {
                        &&& sources.main_document@ == decode_utf8(files[main])
                        &&& if files.dom().contains(list) {
                            &&& sources.asset_list@ == files[list]
                            &&& sources.asset_list_error is None
                        } else {
                            &&& sources.asset_list@ == failures[list].2
                            &&& sources.asset_list_error matches Some(text) && text@ == failures[list].1
                        }
                    },
                    Err(_) => false,
                }
            }
        },
    }
}

/// Where both documents of an archive read in full and the main document is
/// UTF-8, the sources are read whole: the main document's UTF-8 encoding is
/// exactly the main document's bytes, and the asset list is exactly its bytes.
pub proof fn lemma_sources_read_whole(archive: Seq<u8>, res: Result<AssetSources, AppError>)
    requires
        sources_outcome(archive, res),
        zip_archive(archive) is Ok,
        zip_archive(archive)->Ok_0.0.dom().contains(main_document_name()),
        zip_archive(archive)->Ok_0.0.dom().contains(asset_list_name()),
        valid_utf8(zip_archive(archive)->Ok_0.0[main_document_name()]),
    ensures
        res matches Ok(sources) && encode_utf8(sources.main_document@) == zip_archive(
            archive,
        )->Ok_0.0[main_document_name()] && sources.asset_list@ == zip_archive(
            archive,
        )->Ok_0.0[asset_list_name()] && sources.asset_list_error is None,
{
    decode_utf8_encode_utf8(zip_archive(archive)->Ok_0.0[main_document_name()]);
}

/// Reads the main document and the asset list out of an asset definition
/// archive. A failure to read the asset list's data is not decided here: it
/// is met while the list is decoded, so `asset_list` settles it.
pub fn assetmap_sources(archive: Vec<u8>) -> (res: Result<AssetSources, AppError>)
    ensures
        sources_outcome(archive@, res),
        res matches Ok(sources) ==> zip_archive(archive@) is Ok && zip_archive(
            archive@,
        )->Ok_0.0.dom().contains(main_document_name()) && encode_utf8(sources.main_document@)
            == zip_archive(archive@)->Ok_0.0[main_document_name()],
{
    let mut zip = match open_archive(archive) {
        Ok(zip) => zip,
        Err(message) => return Err(asset_error(message)),
    };
    let main_bytes = match read_entry(&mut zip, "asset_config/main.json") {
        Ok(bytes) => bytes,
        Err(EntryError::Lookup(message)) => return Err(asset_error(message)),
        Err(EntryError::Read(message, _)) => return Err(asset_error(message)),
    };
    proof {
        if valid_utf8(main_bytes@) {
            decode_utf8_encode_utf8(main_bytes@);
        }
    }
    let main_document = match string_from_utf8(main_bytes) {
        Some(text) => text,
        None => return Err(asset_error(String::from_str("stream did not contain valid UTF-8"))),
    };
    let (asset_list, asset_list_error) = match read_entry(&mut zip, "asset_config/main.assets") {
        Ok(bytes) => (bytes, None),
        Err(EntryError::Lookup(message)) => return Err(asset_error(message)),
        Err(EntryError::Read(message, partial)) => (partial, Some(message)),
    };
    Ok(AssetSources { main_document, asset_list, asset_list_error })
}

/// How decoding the asset list's bytes as JSON went.
pub enum ListDecoding {
    /// The bytes decode to this asset map.
    Decoded(Asset),
    /// The bytes end before the JSON does; the decoder's error text.
    Incomplete(String),
    /// The bytes are not the JSON of an asset map; the decoder's error text.
    Malformed(String),
}

/// The asset map that the asset list decodes to, or the error met while
/// decoding it. The list is decoded as it is read: where its data read in
/// full, a decoding failure is the error; where reading failed, decoding
/// meets that failure as soon as it asks for more than was read, so a list
/// malformed within the bytes read keeps its own error and otherwise the
/// read failure is the error.
pub fn decode_asset_list(read_error: Option<String>, decoding: ListDecoding) -> (res: Result<Asset, AppError>)
    ensures
        match read_error {
            None => match decoding {
                ListDecoding::Decoded(asset) => res == Ok::<Asset, AppError>(asset),
                ListDecoding::Incomplete(text) => res == Err::<Asset, AppError>(AppError::Serde(text)),
                ListDecoding::Malformed(text) => res == Err::<Asset, AppError>(AppError::Serde(text)),
            },
            Some(failure) => match decoding {
                ListDecoding::Malformed(text) => res == Err::<Asset, AppError>(AppError::Serde(text)),
                _ => res == Err::<Asset, AppError>(AppError::Serde(failure)),
            },
        },
{
    match (read_error, decoding) {
        (None, ListDecoding::Decoded(asset)) => Ok(asset),
        (None, ListDecoding::Incomplete(text)) => Err(AppError::Serde(text)),
        (_, ListDecoding::Malformed(text)) => Err(AppError::Serde(text)),
        (Some(failure), _) => Err(AppError::Serde(failure)),
    }
}

/// What reading file `name` out of the archive held in `archive` gives:
/// not found where the archive does not open or the entry does not open; an
/// archive error with the read error's text where the entry's data fails to
/// read; otherwise the entry's bytes.
pub open spec fn asset_outcome(archive: Seq<u8>, name: Seq<char>, res: Result<Vec<u8>, AppError>) -> bool {
    match zip_archive(archive) {
        Err(_) => res == Err::<Vec<u8>, AppError>(AppError::AssetNotFound),
        Ok(contents) => {
            let files = contents.0;
            let failures = contents.1;
            if files.dom().contains(name) {
                match res {
                    Ok(bytes) => bytes@ == files[name],
                    Err(_) => false,
                }
            } else if failures[name].0 {
                is_asset_error(res, failures[name].1)
            } else {
                res == Err::<Vec<u8>, AppError>(AppError::AssetNotFound)
            }
        },
    }
}

/// A file that the archive holds and that reads in full is served whole:
/// exactly its bytes, whatever their length.
pub proof fn lemma_extract_serves_whole_file(archive: Seq<u8>, name: Seq<char>, res: Result<Vec<u8>, AppError>)
    requires
        asset_outcome(archive, name, res),
        zip_archive(archive) is Ok,
        zip_archive(archive)->Ok_0.0.dom().contains(name),
    ensures
        res matches Ok(bytes) && bytes@ == zip_archive(archive)->Ok_0.0[name],
{
}

/// Reads the file `asset_file_name` out of an asset archive. An archive that
/// cannot be opened, or that lacks the file, means the asset was not found.
pub fn extract_asset(archive: Vec<u8>, asset_file_name: &str) -> (res: Result<Vec<u8>, AppError>)
    ensures
        asset_outcome(archive@, asset_file_name@, res),
        zip_archive(archive@) is Ok && zip_archive(archive@)->Ok_0.0.dom().contains(asset_file_name@)
            ==> (res matches Ok(bytes) && bytes@ == zip_archive(archive@)->Ok_0.0[asset_file_name@]),
{
    let mut zip = match open_archive(archive) {
        Ok(zip) => zip,
        Err(_) => return Err(not_found()),
    };
    match read_entry(&mut zip, asset_file_name) {
        Ok(bytes) => Ok(bytes),
        Err(EntryError::Lookup(_)) => Err(not_found()),
        Err(EntryError::Read(message, _)) => Err(asset_error(message)),
    }
}


/// The HTTP method of a request to the asset service.
#[derive(Clone, Copy, Debug, PartialEq, Eq, Structural)]
pub enum Method {
    Get,
    Post,
}

/// A request to the asset service: its method, its URL, its query
/// parameters and its form fields, each parameter as (name, value), and the
/// content type it declares, if any.
pub struct AssetRequest {
    pub method: Method,
    pub url: String,
    pub query: Vec<(String, String)>,
    pub form: Vec<(String, String)>,
    pub content_type: Option<String>,
}

/// Where fetching from the asset service failed.
#[derive(Clone, Copy, Debug, PartialEq, Eq, Structural)]
pub enum FetchStage {
    /// The request could not be sent.
    Send,
    /// The answer's body could not be read.
    Body,
}

/// The error for a failed fetch of a definition archive: a request that
/// could not be sent means the asset could not be fetched; a body that could
/// not be read means it was not found.
pub fn definition_fetch_error(stage: FetchStage) -> (err: AppError)
    ensures
        err == (match stage {
            FetchStage::Send => AppError::FailedToGetAsset,
            FetchStage::Body => AppError::AssetNotFound,
        }),
{
    match stage {
        FetchStage::Send => AppError::FailedToGetAsset,
        FetchStage::Body => not_found(),
    }
}

/// Name/value pairs as character sequences.
pub open spec fn pairs_view(pairs: Seq<(String, String)>) -> Seq<(Seq<char>, Seq<char>)> {
    pairs.map_values(|p: (String, String)| (p.0@, p.1@))
}

/// `request` asks for the definition archive of `asset_id` at `version`:
/// `GET {assets_url}/getAssetDefinition/{asset_id}?version={version}`.
pub open spec fn is_definition_request(
    request: AssetRequest,
    config: Config,
    asset_id: Seq<char>,
    version: u64,
) -> bool {
    &&& request.method == Method::Get
    &&& request.url@ == config.assets_url@ + "/getAssetDefinition/"@ + asset_id
    &&& pairs_view(request.query@) == seq![("version"@, decimal(version as nat))]
    &&& request.form@.len() == 0
    &&& request.content_type is None
}

/// `request` asks for file `file` of `asset_id` at `version`: a form post
/// to `{assets_url}/getAsset?version={version}` with fields `asset_id`,
/// `version` and `files`, declared as `application/x-www-form-urlencoded`.
pub open spec fn is_asset_file_request(
    request: AssetRequest,
    config: Config,
    asset_id: Seq<char>,
    version: u64,
    file: Seq<char>,
) -> bool {
    &&& request.method == Method::Post
    &&& request.url@ == config.assets_url@ + "/getAsset?version="@ + decimal(version as nat)
    &&& request.query@.len() == 0
    &&& pairs_view(request.form@) == seq![
        ("asset_id"@, asset_id),
        ("version"@, decimal(version as nat)),
        ("files"@, file),
    ]
    &&& request.content_type matches Some(t) && t@ == "application/x-www-form-urlencoded"@
}

/// The request for the definition archive of `asset_id` at `version`.
pub fn definition_request(config: &Config, asset_id: &str, version: u64) -> (request: AssetRequest)
    ensures
        is_definition_request(request, *config, asset_id@, version),
{
    let mut url = config.assets_url.clone();
    url.append("/getAssetDefinition/");
    url.append(asset_id);
    let mut query: Vec<(String, String)> = Vec::new();
    let name = String::from_str("version");
    let value = decimal_string(version);
    let ghost p = (name@, value@);
    query.push((name, value));
    assert(pairs_view(query@) =~= seq![p]);
    AssetRequest { method: Method::Get, url, query, form: Vec::new(), content_type: None }
}

/// The request for file `file` of `asset_id` at `version`.
pub fn asset_file_request(config: &Config, asset_id: &str, version: u64, file: &str) -> (request: AssetRequest)
    ensures
        is_asset_file_request(request, *config, asset_id@, version, file@),
{
    let mut url = config.assets_url.clone();
    url.append("/getAsset?version=");
    let v = decimal_string(version);
    url.append(v.as_str());
    let mut form: Vec<(String, String)> = Vec::new();
    let id_name = String::from_str("asset_id");
    let id_value = String::from_str(asset_id);
    let version_name = String::from_str("version");
    let version_value = decimal_string(version);
    let files_name = String::from_str("files");
    let files_value = String::from_str(file);
    let ghost expected = seq![
        (id_name@, id_value@),
        (version_name@, version_value@),
        (files_name@, files_value@),
    ];
    form.push((id_name, id_value));
    form.push((version_name, version_value));
    form.push((files_name, files_value));
    assert(pairs_view(form@) =~= expected);
    let content_type = Some(String::from_str("application/x-www-form-urlencoded"));
    AssetRequest { method: Method::Post, url, query: Vec::new(), form, content_type }
}

} // verus!
