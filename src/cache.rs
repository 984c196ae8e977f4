use crate::text::{ends_with, starts_with, string_of};
use vstd::prelude::*;
use vstd::string::{StrSliceExecFns, StringExecFns};

verus! {

#[verifier::external_type_specification]
#[verifier::external_body]
pub struct ExUrl(url::Url);

#[verifier::external_type_specification]
#[verifier::external_body]
pub struct ExParseError(url::ParseError);

/// Whether the URL parser accepts the text.
pub uninterp spec fn url_parses(s: Seq<char>) -> bool;

/// Relies on `url::Url::parse`: succeeds exactly on the texts it accepts,
/// which depends on the text alone.
#[verifier::external_body]
fn parse_url(s: &str) -> (r: Result<url::Url, url::ParseError>)
    ensures
        r is Ok <==> url_parses(s@),
{
    url::Url::parse(s)
}

/// The root of an installation, under which its caches live
#[derive(Debug, Clone)]
pub struct Installation {
    pub root: String,
}

/// A file path in the cache and the directory that must exist to hold it
#[derive(Debug, Clone)]
pub struct CachePath {
    pub directory: String,
    pub file: String,
}

/// Errors of fetching and unpacking packages
#[derive(Debug)]
pub enum Error {
    MissingHash,
    MissingUri,
    MissingContent,
    MalformedHash(String),
    InvalidUrl(url::ParseError),
    /// An index entry ends before it starts
    MalformedIndex,
}

pub open spec fn downloads_root(root: Seq<char>) -> Seq<char> {
    root + "/cache/downloads/v1"@
}

pub open spec fn assets_root(root: Seq<char>) -> Seq<char> {
    root + "/assets/v2"@
}

pub open spec fn content_root(root: Seq<char>) -> Seq<char> {
    root + "/cache/content"@
}

/// `<root>/cache/downloads/v1/<h[0..5]>/<h[-5..]>`
pub open spec fn download_dir(root: Seq<char>, h: Seq<char>) -> Seq<char> {
    downloads_root(root) + "/"@ + h.subrange(0, 5) + "/"@ + h.subrange(h.len() - 5, h.len() as int)
}

/// `<root>/assets/v2/<h[0..2]>/<h[2..4]>/<h[4..6]>` for hashes of ten
/// characters or more, else `<root>/assets/v2`
pub open spec fn asset_dir(root: Seq<char>, h: Seq<char>) -> Seq<char> {
    if h.len() >= 10 {
        assets_root(root) + "/"@ + h.subrange(0, 2) + "/"@ + h.subrange(2, 4) + "/"@ + h.subrange(
            4,
            6,
        )
    } else {
        assets_root(root)
    }
}

impl CachePath {
    /// The file `h` in `dir`
    pub open spec fn is(self, dir: Seq<char>, h: Seq<char>) -> bool {
        self.directory@ == dir && self.file@ == dir + "/"@ + h
    }
}

fn file_in(directory: String, name: &str) -> (r: CachePath)
    ensures
        r.is(directory@, name@),
{
    let mut file = directory.clone();
    file.append("/");
    file.append(name);
    CachePath { directory, file }
}

/// The path a package download with this hash is stored at. Hashes shorter
/// than five characters are malformed.
pub fn download_path(installation: &Installation, hash: &str) -> (r: Result<CachePath, Error>)
    ensures
        hash@.len() < 5 <==> r is Err,
        r matches Err(e) ==> e matches Error::MalformedHash(h) && h@ == hash@,
        r matches Ok(p) ==> p.is(download_dir(installation.root@, hash@), hash@),
{
    let n = hash.unicode_len();
    if n < 5 {
        return Err(Error::MalformedHash(hash.to_owned()));
    }
    let mut dir = installation.root.clone();
    dir.append("/cache/downloads/v1");
    dir.append("/");
    dir.append(hash.substring_char(0, 5));
    dir.append("/");
    dir.append(hash.substring_char(n - 5, n));
    Ok(file_in(dir, hash))
}

/// The path an unpacked asset with this hash is stored at
pub fn asset_path(installation: &Installation, hash: &str) -> (r: CachePath)
    ensures
        r.is(asset_dir(installation.root@, hash@), hash@),
{
    let n = hash.unicode_len();
    let mut dir = installation.root.clone();
    dir.append("/assets/v2");
    if n >= 10 {
        dir.append("/");
        dir.append(hash.substring_char(0, 2));
        dir.append("/");
        dir.append(hash.substring_char(2, 4));
        dir.append("/");
        dir.append(hash.substring_char(4, 6));
    }
    file_in(dir, hash)
}

/// An asset whose hash has ten characters or more lies in the directory
/// named by its first three pairs of characters, under the assets root, and
/// its file name is the hash itself.
pub proof fn lemma_asset_path_sharded(installation: Installation, hash: Seq<char>, p: CachePath)
    requires
        hash.len() >= 10,
        p.is(asset_dir(installation.root@, hash), hash),
    ensures
        starts_with(
            p.file@,
            assets_root(installation.root@) + "/"@ + hash.subrange(0, 2) + "/"@ + hash.subrange(2, 4)
                + "/"@ + hash.subrange(4, 6) + "/"@,
        ),
        ends_with(p.file@, hash),
{
    let dir = asset_dir(installation.root@, hash);
    let prefix = dir + "/"@;
    assert(p.file@ == prefix + hash);
    assert((prefix + hash).subrange(0, prefix.len() as int) =~= prefix);
    assert((prefix + hash).subrange(prefix.len() as int, (prefix + hash).len() as int) =~= hash);
}

pub open spec fn hex_chars() -> Seq<char> {
    seq!['0', '1', '2', '3', '4', '5', '6', '7', '8', '9', 'a', 'b', 'c', 'd', 'e', 'f']
}

/// Lowercase hexadecimal digits of a number, without leading zeros
pub open spec fn hex_digits(n: nat) -> Seq<char>
    decreases n,
{
    if n < 16 {
        seq![hex_chars()[n as int]]
    } else {
        hex_digits(n / 16).push(hex_chars()[(n % 16) as int])
    }
}

/// Lowercase hexadecimal of a number, padded to at least two digits
pub open spec fn hex_of(n: nat) -> Seq<char> {
    if n < 16 {
        seq!['0', hex_chars()[n as int]]
    } else {
        hex_digits(n)
    }
}

fn push_hex_digits(n: u128, out: &mut Vec<char>)
    ensures
        final(out)@ == old(out)@ + hex_digits(n as nat),
    decreases n,
{
    let digits = ['0', '1', '2', '3', '4', '5', '6', '7', '8', '9', 'a', 'b', 'c', 'd', 'e', 'f'];
    assert(digits@ =~= hex_chars());
    if n >= 16 {
        push_hex_digits(n / 16, out);
    }
    out.push(digits[(n % 16) as usize]);
    proof {
        if n >= 16 {
            assert(final(out)@ =~= old(out)@ + hex_digits(n as nat));
        } else {
            assert(final(out)@ =~= old(out)@ + hex_digits(n as nat));
        }
    }
}

/// The asset hash of a digest: lowercase hexadecimal, at least two digits
pub fn digest_hex(digest: u128) -> (r: String)
    ensures
        r@ == hex_of(digest as nat),
{
    let mut chars: Vec<char> = Vec::new();
    if digest < 16 {
        chars.push('0');
    }
    push_hex_digits(digest, &mut chars);
    assert(chars@ =~= hex_of(digest as nat));
    string_of(&chars)
}

/// What the repository says of a package
#[derive(Debug, Clone)]
pub struct Meta {
    pub id: String,
    pub uri: Option<String>,
    pub hash: Option<String>,
    pub download_size: Option<u64>,
}

/// Where a package is fetched from and where it is kept
#[derive(Debug)]
pub struct FetchTarget {
    pub url: url::Url,
    pub path: CachePath,
}

/// A package that has been downloaded to the installation
#[derive(Debug, Clone)]
pub struct Download {
    pub id: String,
    pub path: String,
    pub installation: Installation,
    pub was_cached: bool,
}

/// Checks a package's metadata and finds where its download goes: its URI
/// must be present and parse, its hash present and at least five characters.
pub fn fetch_target(meta: &Meta, installation: &Installation) -> (r: Result<FetchTarget, Error>)
    ensures
        meta.uri is None ==> (r matches Err(Error::MissingUri)),
        meta.uri matches Some(u) ==> (!url_parses(u@) ==> (r matches Err(Error::InvalidUrl(_)))),
        meta.uri matches Some(u) ==> (url_parses(u@) && meta.hash is None ==> (r matches Err(
            Error::MissingHash,
        ))),
        meta.uri matches Some(u) ==> (url_parses(u@) ==> (meta.hash matches Some(h) ==> (h@.len()
            < 5 ==> (r matches Err(Error::MalformedHash(m)) && m@ == h@)))),
        meta.uri matches Some(u) ==> (url_parses(u@) ==> (meta.hash matches Some(h) ==> (h@.len()
            >= 5 ==> (r matches Ok(t) && t.path.is(download_dir(installation.root@, h@), h@))))),
{
    let uri = match &meta.uri {
        None => return Err(Error::MissingUri),
        Some(u) => u,
    };
    let url = match parse_url(uri.as_str()) {
        Ok(url) => url,
        Err(e) => return Err(Error::InvalidUrl(e)),
    };
    let hash = match &meta.hash {
        None => return Err(Error::MissingHash),
        Some(h) => h,
    };
    match download_path(installation, hash.as_str()) {
        Ok(path) => Ok(FetchTarget { url, path }),
        Err(e) => Err(e),
    }
}

/// Once the download's file has been looked for: a file that is there is the
/// cached package, and the network is not used; `None` asks for the download.
pub fn cached_download(meta: &Meta, installation: &Installation, target: &FetchTarget, exists: bool) -> (r:
    Option<Download>)
    ensures
        exists <==> r is Some,
        r matches Some(d) ==> d.was_cached && d.path@ == target.path.file@ && d.id@ == meta.id@
            && d.installation.root@ == installation.root@,
{
    if exists {
        Some(
            Download {
                id: meta.id.clone(),
                path: target.path.file.clone(),
                installation: installation.clone_root(),
                was_cached: true,
            },
        )
    } else {
        None
    }
}

/// The download once all of it has been written
pub fn completed_download(meta: &Meta, installation: &Installation, target: &FetchTarget) -> (r:
    Download)
    ensures
        !r.was_cached && r.path@ == target.path.file@ && r.id@ == meta.id@
            && r.installation.root@ == installation.root@,
{
    Download {
        id: meta.id.clone(),
        path: target.path.file.clone(),
        installation: installation.clone_root(),
        was_cached: false,
    }
}

impl Installation {
    pub fn clone_root(&self) -> (r: Installation)
        ensures
            r.root@ == self.root@,
    {
        Installation { root: self.root.clone() }
    }
}

/// Progress of a download or of an extraction
#[derive(Debug, Clone, Copy, PartialEq, Eq, Structural)]
pub struct Progress {
    pub delta: u64,
    pub completed: u64,
    pub total: u64,
}

impl Progress {
    /// Progress after a chunk of `delta` bytes, with `completed` bytes done
    /// before it; the total is the expected size where known, else the bytes
    /// done so far.
    pub fn after_chunk(completed: u64, delta: u64, expected: Option<u64>) -> (r: Progress)
        requires
            completed + delta <= u64::MAX,
        ensures
            r.delta == delta,
            r.completed == completed + delta,
            r.total == match expected {
                Some(t) => t,
                None => (completed + delta) as u64,
            },
    {
        let done = completed + delta;
        Progress {
            delta,
            completed: done,
            total: match expected {
                Some(t) => t,
                None => done,
            },
        }
    }
}

/// A byte range of the content payload and the digest of what it holds
#[derive(Debug, Clone, Copy, PartialEq, Eq, Structural)]
pub struct IndexEntry {
    pub start: u64,
    pub end: u64,
    pub digest: u128,
}

/// Sizes of a payload's body
#[derive(Debug, Clone, Copy, PartialEq, Eq, Structural)]
pub struct PayloadHeader {
    pub plain_size: u64,
    pub stored_size: u64,
}

/// A decoded payload of a stone file
#[derive(Debug, Clone)]
pub enum PayloadKind {
    Meta,
    Layout,
    Index(Vec<IndexEntry>),
    /// The content blob, which is streamed rather than held
    Content(PayloadHeader),
    Attributes,
}

/// The index entries of all index payloads, in order
pub open spec fn index_entries_spec(ps: Seq<PayloadKind>) -> Seq<IndexEntry>
    decreases ps.len(),
{
    if ps.len() == 0 {
        Seq::empty()
    } else {
        index_entries_spec(ps.drop_last()) + match ps.last() {
            PayloadKind::Index(v) => v@,
            _ => Seq::empty(),
        }
    }
}

pub fn index_entries(payloads: &Vec<PayloadKind>) -> (r: Vec<IndexEntry>)
    ensures
        r@ == index_entries_spec(payloads@),
{
    let mut r: Vec<IndexEntry> = Vec::new();
    let mut i: usize = 0;
    assert(payloads@.subrange(0, 0) =~= Seq::<PayloadKind>::empty());
    while i < payloads.len()
        invariant
            i <= payloads@.len(),
            r@ == index_entries_spec(payloads@.subrange(0, i as int)),
        decreases payloads@.len() - i,
    {
        let ghost before = r@;
        assert(payloads@.subrange(0, i + 1).drop_last() =~= payloads@.subrange(0, i as int));
        if let PayloadKind::Index(v) = &payloads[i] {
            let mut k: usize = 0;
            while k < v.len()
                invariant
                    k <= v@.len(),
                    r@ == before + v@.subrange(0, k as int),
                decreases v@.len() - k,
            {
                r.push(v[k]);
                k = k + 1;
                assert(r@ =~= before + v@.subrange(0, k as int));
            }
            assert(v@.subrange(0, v@.len() as int) =~= v@);
        } else {
            assert(r@ =~= before + Seq::<IndexEntry>::empty());
        }
        i = i + 1;
    }
    assert(payloads@.subrange(0, payloads@.len() as int) =~= payloads@);
    r
}

/// The paths of the assets that index entries name
pub fn asset_paths(installation: &Installation, entries: &Vec<IndexEntry>) -> (r: Vec<CachePath>)
    ensures
        r@.len() == entries@.len(),
        forall|k: int|
            0 <= k < r@.len() ==> (#[trigger] r@[k]).is(
                asset_dir(installation.root@, hex_of(entries@[k].digest as nat)),
                hex_of(entries@[k].digest as nat),
            ),
{
    let mut r: Vec<CachePath> = Vec::new();
    let mut k: usize = 0;
    while k < entries.len()
        invariant
            k <= entries@.len(),
            r@.len() == k,
            forall|j: int|
                0 <= j < k ==> (#[trigger] r@[j]).is(
                    asset_dir(installation.root@, hex_of(entries@[j].digest as nat)),
                    hex_of(entries@[j].digest as nat),
                ),
        decreases entries@.len() - k,
    {
        let hash = digest_hex(entries[k].digest);
        r.push(asset_path(installation, hash.as_str()));
        k = k + 1;
    }
    r
}

/// A range of the content file to copy to an asset file
#[derive(Debug, Clone)]
pub struct AssetCopy {
    pub start: u64,
    pub len: u64,
    pub path: CachePath,
}

/// What unpacking a downloaded package takes
#[derive(Debug)]
pub enum UnpackPlan {
    /// Every asset is already in place: nothing is extracted or written
    Reuse,
    /// Extract the content payload to `content_path`, copy each range to its
    /// asset, then remove the content file
    Extract { content: usize, plain_size: u64, content_path: CachePath, copies: Vec<AssetCopy> },
}

/// The payloads of a package once its assets are in place
#[derive(Debug, Clone)]
pub struct UnpackedAsset {
    pub payloads: Vec<PayloadKind>,
}

/// Whether payload `i` is the first content payload
pub open spec fn first_content(ps: Seq<PayloadKind>, i: int) -> bool {
    0 <= i < ps.len() && ps[i] is Content && forall|j: int| 0 <= j < i ==> !(ps[j] is Content)
}

/// The copy that an index entry asks for
pub open spec fn copy_of(root: Seq<char>, e: IndexEntry, c: AssetCopy) -> bool {
    &&& c.start == e.start
    &&& c.len == e.end - e.start
    &&& c.path.is(asset_dir(root, hex_of(e.digest as nat)), hex_of(e.digest as nat))
}

fn find_content(payloads: &Vec<PayloadKind>) -> (r: Option<usize>)
    ensures
        r matches Some(i) ==> first_content(payloads@, i as int),
        r is None ==> forall|j: int| 0 <= j < payloads@.len() ==> !(payloads@[j] is Content),
{
    let mut i: usize = 0;
    while i < payloads.len()
        invariant
            i <= payloads@.len(),
            forall|j: int| 0 <= j < i ==> !(payloads@[j] is Content),
        decreases payloads@.len() - i,
    {
        if let PayloadKind::Content(_) = &payloads[i] {
            return Some(i);
        }
        i = i + 1;
    }
    None
}

impl Download {
    /// Decides how to unpack the package from its payloads. A cached download
    /// whose assets all exist is reused as it is. Otherwise the content
    /// payload is needed, and each index entry, in order, becomes a copy of
    /// its byte range to the asset named by its digest.
    pub fn unpack_plan(&self, payloads: &Vec<PayloadKind>, all_assets_exist: bool) -> (r: Result<
        UnpackPlan,
        Error,
    >)
        ensures
            self.was_cached && all_assets_exist ==> (r matches Ok(UnpackPlan::Reuse)),
            !(self.was_cached && all_assets_exist) ==> {
                let entries = index_entries_spec(payloads@);
                let root = self.installation.root@;
                &&& (forall|j: int| 0 <= j < payloads@.len() ==> !(payloads@[j] is Content)) ==> (
                r matches Err(Error::MissingContent))
                &&& (exists|j: int| 0 <= j < payloads@.len() && payloads@[j] is Content) ==> {
                    &&& (exists|k: int|
                        0 <= k < entries.len() && #[trigger] entries[k].end < entries[k].start)
                        ==> (r matches Err(Error::MalformedIndex))
                    &&& (forall|k: int|
                        0 <= k < entries.len() ==> #[trigger] entries[k].start <= entries[k].end)
                        ==> (r matches Ok(
                        UnpackPlan::Extract { content, plain_size, content_path, copies },
                    ) && first_content(payloads@, content as int) && payloads@[content as int]
                        == PayloadKind::Content(PayloadHeader { plain_size, stored_size: payloads@[content as int]->Content_0.stored_size })
                        && content_path.is(content_root(root), self.id@) && copies@.len()
                        == entries.len() && forall|k: int|
                        0 <= k < entries.len() ==> copy_of(root, entries[k], #[trigger] copies@[k]))
                }
            },
    {
        if self.was_cached && all_assets_exist {
            return Ok(UnpackPlan::Reuse);
        }
        let content = match find_content(payloads) {
            None => return Err(Error::MissingContent),
            Some(c) => c,
        };
        let plain_size = match &payloads[content] {
            PayloadKind::Content(h) => h.plain_size,
            _ => 0,
        };
        let entries = index_entries(payloads);
        let mut copies: Vec<AssetCopy> = Vec::new();
        let mut k: usize = 0;
        while k < entries.len()
            invariant
                k <= entries@.len(),
                !(self.was_cached && all_assets_exist),
                entries@ == index_entries_spec(payloads@),
                first_content(payloads@, content as int),
                copies@.len() == k,
                forall|j: int| 0 <= j < k ==> entries@[j].start <= entries@[j].end,
                forall|j: int|
                    0 <= j < k ==> copy_of(self.installation.root@, entries@[j], #[trigger] copies@[j]),
            decreases entries@.len() - k,
        {
            let e = entries[k];
            if e.end < e.start {
                assert(payloads@[content as int] is Content);
                return Err(Error::MalformedIndex);
            }
            let hash = digest_hex(e.digest);
            let path = asset_path(&self.installation, hash.as_str());
            copies.push(AssetCopy { start: e.start, len: e.end - e.start, path });
            k = k + 1;
        }
        let mut dir = self.installation.root.clone();
        dir.append("/cache/content");
        let content_path = file_in(dir, self.id.as_str());
        Ok(UnpackPlan::Extract { content, plain_size, content_path, copies })
    }
}

} // verus!
