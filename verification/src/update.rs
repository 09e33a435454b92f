use vstd::prelude::*;
use crate::json::{items_of, json_as_array, json_field, json_get, text_field, text_of};
use crate::numfmt::{parse_u32, parse_unsigned_spec};
use crate::text::{
    chars_of, ends_with, ends_with_chars, rfind_char, rfind_char_chars, slice_chars, string_of,
    trim_start_char, trim_start_char_chars,
};

verus! {

/// The pieces of `s` between the separator `c` (`str::split(c)`), as a left-to-right fold.
pub open spec fn split_char(s: Seq<char>, c: char) -> Seq<Seq<char>>
    decreases s.len(),
{
    if s.len() == 0 {
        seq![Seq::empty()]
    } else {
        let prev = split_char(s.drop_last(), c);
        if s.last() == c {
            prev.push(Seq::empty())
        } else {
            prev.update(prev.len() - 1, prev.last().push(s.last()))
        }
    }
}

pub proof fn lemma_split_nonempty(s: Seq<char>, c: char)
    ensures
        split_char(s, c).len() >= 1,
    decreases s.len(),
{
    if s.len() > 0 {
        lemma_split_nonempty(s.drop_last(), c);
    }
}

/// The pieces that read as a `u32`, as numbers, in order (`filter_map(|s| s.parse().ok())`).
pub open spec fn numeric_pieces(pieces: Seq<Seq<char>>) -> Seq<nat>
    decreases pieces.len(),
{
    if pieces.len() == 0 {
        Seq::empty()
    } else {
        let rest = numeric_pieces(pieces.drop_last());
        match parse_unsigned_spec(pieces.last(), u32::MAX as nat) {
            Some(v) => rest.push(v),
            None => rest,
        }
    }
}

/// The numbers of a dotted version such as `1.10.2`.
pub open spec fn version_parts(v: Seq<char>) -> Seq<nat> {
    numeric_pieces(split_char(v, '.'))
}

/// Whether version `l` is newer than `c`: the first differing number decides; when one is a
/// prefix of the other, the longer is newer.
pub open spec fn newer(l: Seq<nat>, c: Seq<nat>) -> bool
    decreases l.len(),
{
    if l.len() == 0 || c.len() == 0 {
        l.len() > c.len()
    } else if l[0] > c[0] {
        true
    } else if l[0] < c[0] {
        false
    } else {
        newer(l.drop_first(), c.drop_first())
    }
}

fn piece_value(piece: &Vec<char>) -> (r: Option<u32>)
    ensures
        r matches Some(v) ==> parse_unsigned_spec(piece@, u32::MAX as nat) == Some(v as nat),
        r is None ==> parse_unsigned_spec(piece@, u32::MAX as nat) is None,
{
    let s = string_of(piece.as_slice());
    parse_u32(s.as_str())
}

/// The numbers of a dotted version.
pub fn parse_version(v: &str) -> (r: Vec<u32>)
    ensures
        r@.map_values(|x: u32| x as nat) == version_parts(v@),
{
    let s = chars_of(v);
    let mut parts: Vec<u32> = Vec::new();
    let mut cur: Vec<char> = Vec::new();
    let mut i: usize = 0;
    proof {
        assert(s@.take(0) =~= Seq::<char>::empty());
        assert(split_char(Seq::<char>::empty(), '.').drop_last() =~= Seq::<Seq<char>>::empty());
        assert(parts@.map_values(|x: u32| x as nat) =~= Seq::<nat>::empty());
    }
    while i < s.len()
        invariant
            i <= s@.len(),
            split_char(s@.take(i as int), '.').len() >= 1,
            cur@ == split_char(s@.take(i as int), '.').last(),
            parts@.map_values(|x: u32| x as nat) == numeric_pieces(
                split_char(s@.take(i as int), '.').drop_last(),
            ),
        decreases s@.len() - i,
    {
        let ghost prev = split_char(s@.take(i as int), '.');
        proof {
            assert(s@.take(i + 1).drop_last() =~= s@.take(i as int));
            assert(s@.take(i + 1).last() == s@[i as int]);
        }
        if s[i] == '.' {
            let ghost before = parts@;
            match piece_value(&cur) {
                Some(n) => {
                    parts.push(n);
                },
                None => {},
            }
            proof {
                let next = prev.push(Seq::empty());
                assert(next.drop_last() =~= prev);
                assert(prev.drop_last().push(prev.last()) =~= prev);
                assert(parts@.map_values(|x: u32| x as nat) =~= numeric_pieces(prev));
            }
            cur = Vec::new();
            proof {
                assert(cur@ =~= Seq::<char>::empty());
            }
        } else {
            cur.push(s[i]);
            proof {
                let next = prev.update(prev.len() - 1, prev.last().push(s@[i as int]));
                assert(next.drop_last() =~= prev.drop_last());
            }
        }
        i = i + 1;
        proof {
            lemma_split_nonempty(s@.take(i as int), '.');
        }
    }
    assert(s@.take(i as int) =~= s@);
    let ghost pieces = split_char(s@, '.');
    match piece_value(&cur) {
        Some(n) => {
            parts.push(n);
        },
        None => {},
    }
    proof {
        assert(pieces.drop_last().push(pieces.last()) =~= pieces);
        assert(parts@.map_values(|x: u32| x as nat) =~= numeric_pieces(pieces));
    }
    parts
}

/// Whether the release `latest` is newer than the running version `current`.
pub fn compare_versions(latest: &str, current: &str) -> (r: bool)
    ensures
        r == newer(version_parts(latest@), version_parts(current@)),
{
    let l = parse_version(latest);
    let c = parse_version(current);
    let ghost lv = l@.map_values(|x: u32| x as nat);
    let ghost cv = c@.map_values(|x: u32| x as nat);
    let mut i: usize = 0;
    assert(lv.skip(0) =~= lv);
    assert(cv.skip(0) =~= cv);
    while i < l.len() && i < c.len()
        invariant
            i <= l@.len(),
            i <= c@.len(),
            lv == l@.map_values(|x: u32| x as nat),
            cv == c@.map_values(|x: u32| x as nat),
            lv == version_parts(latest@),
            cv == version_parts(current@),
            newer(lv, cv) == newer(lv.skip(i as int), cv.skip(i as int)),
        decreases l@.len() - i,
    {
        proof {
            assert(lv.skip(i as int).len() > 0 && cv.skip(i as int).len() > 0);
            assert(lv.skip(i as int)[0] == l@[i as int] as nat);
            assert(cv.skip(i as int)[0] == c@[i as int] as nat);
            assert(lv.skip(i as int).drop_first() =~= lv.skip(i + 1));
            assert(cv.skip(i as int).drop_first() =~= cv.skip(i + 1));
        }
        if l[i] > c[i] {
            return true;
        }
        if l[i] < c[i] {
            return false;
        }
        i = i + 1;
    }
    assert(lv.skip(i as int).len() == 0 || cv.skip(i as int).len() == 0);
    l.len() > c.len()
}

/// A release version is its tag without leading `v`s.
pub fn version_from_tag(tag: &str) -> (r: String)
    ensures
        r@ == trim_start_char(tag@, 'v'),
{
    string_of(trim_start_char_chars(&chars_of(tag), 'v').as_slice())
}

/// One downloadable file of a release.
#[derive(Debug)]
pub struct ReleaseAsset {
    pub name: Option<String>,
    pub browser_download_url: Option<String>,
}

/// Whether an asset is a `.zip` archive.
pub open spec fn is_zip_asset(a: ReleaseAsset) -> bool {
    a.name matches Some(n) && ends_with(n@, ".zip"@)
}

/// The download link of the first `.zip` asset (empty when it has none), or empty when no
/// asset is a `.zip` archive.
pub open spec fn zip_download_url(assets: Seq<ReleaseAsset>) -> Seq<char>
    decreases assets.len(),
{
    if assets.len() == 0 {
        Seq::empty()
    } else if is_zip_asset(assets[0]) {
        match assets[0].browser_download_url {
            Some(u) => u@,
            None => Seq::empty(),
        }
    } else {
        zip_download_url(assets.drop_first())
    }
}

pub fn pick_download_url(assets: &Vec<ReleaseAsset>) -> (r: String)
    ensures
        r@ == zip_download_url(assets@),
{
    let zip = chars_of(".zip");
    let mut i: usize = 0;
    assert(assets@.skip(0) =~= assets@);
    while i < assets.len()
        invariant
            i <= assets@.len(),
            zip@ == ".zip"@,
            zip_download_url(assets@) == zip_download_url(assets@.skip(i as int)),
        decreases assets@.len() - i,
    {
        let a = &assets[i];
        proof {
            assert(assets@.skip(i as int)[0] == assets@[i as int]);
            assert(assets@.skip(i as int).drop_first() =~= assets@.skip(i + 1));
        }
        let is_zip = match &a.name {
            Some(n) => ends_with_chars(&chars_of(n.as_str()), &zip),
            None => false,
        };
        if is_zip {
            return match &a.browser_download_url {
                Some(u) => u.clone(),
                None => String::new(),
            };
        }
        i = i + 1;
    }
    String::new()
}

/// What the update check reports.
#[derive(Debug)]
pub struct UpdateInfo {
    pub has_update: bool,
    pub latest_version: String,
    pub current_version: String,
    pub download_url: String,
    pub release_notes: String,
}

/// The update report for the latest release (its tag, notes and assets) against the running
/// version; a missing tag or body counts as empty.
pub fn update_info(
    tag_name: Option<&str>,
    body: Option<&str>,
    assets: &Vec<ReleaseAsset>,
    current_version: &str,
) -> (r: UpdateInfo)
    ensures
        r.latest_version@ == trim_start_char(
            match tag_name {
                Some(t) => t@,
                None => Seq::empty(),
            },
            'v',
        ),
        r.release_notes@ == match body {
            Some(b) => b@,
            None => Seq::empty(),
        },
        r.download_url@ == zip_download_url(assets@),
        r.current_version@ == current_version@,
        r.has_update == newer(version_parts(r.latest_version@), version_parts(current_version@)),
{
    proof {
        reveal_strlit("");
    }
    let latest_version = version_from_tag(
        match tag_name {
            Some(t) => t,
            None => "",
        },
    );
    let release_notes = match body {
        Some(b) => String::from_str(b),
        None => String::new(),
    };
    let download_url = pick_download_url(assets);
    let has_update = compare_versions(latest_version.as_str(), current_version);
    UpdateInfo {
        has_update,
        latest_version,
        current_version: String::from_str(current_version),
        download_url,
        release_notes,
    }
}

/// The text of an optional JSON value, empty when it is missing or not a string.
pub open spec fn text_or_empty(value: Option<serde_json::Value>) -> Seq<char> {
    match text_of(value) {
        Some(t) => t,
        None => Seq::empty(),
    }
}

/// An asset of a release reply read for its `name` and `browser_download_url` strings.
pub open spec fn json_asset(item: serde_json::Value) -> (Option<Seq<char>>, Option<Seq<char>>) {
    (text_of(json_field(item, "name"@)), text_of(json_field(item, "browser_download_url"@)))
}

pub open spec fn asset_view(a: ReleaseAsset) -> (Option<Seq<char>>, Option<Seq<char>>) {
    (
        match a.name {
            Some(n) => Some(n@),
            None => None,
        },
        match a.browser_download_url {
            Some(u) => Some(u@),
            None => None,
        },
    )
}

/// The download link of the first asset of a release reply whose name ends in `.zip` (empty
/// when that asset has no link), or empty when no asset is a `.zip` archive.
pub open spec fn first_zip_url_in(items: Seq<serde_json::Value>) -> Seq<char>
    decreases items.len(),
{
    if items.len() == 0 {
        Seq::empty()
    } else if json_asset(items[0]).0 matches Some(n) && ends_with(n, ".zip"@) {
        text_or_empty(json_field(items[0], "browser_download_url"@))
    } else {
        first_zip_url_in(items.drop_first())
    }
}

/// The `.zip` download link of a release's `assets`, empty when they are not an array.
pub open spec fn first_zip_url(items: Option<Seq<serde_json::Value>>) -> Seq<char> {
    match items {
        Some(s) => first_zip_url_in(s),
        None => Seq::empty(),
    }
}

proof fn lemma_zip_url_matches(assets: Seq<ReleaseAsset>, items: Seq<serde_json::Value>)
    requires
        assets.len() == items.len(),
        forall|k: int| 0 <= k < assets.len() ==> asset_view(#[trigger] assets[k]) == json_asset(items[k]),
    ensures
        zip_download_url(assets) == first_zip_url_in(items),
    decreases assets.len(),
{
    if assets.len() > 0 {
        assert(asset_view(assets[0]) == json_asset(items[0]));
        assert forall|k: int| 0 <= k < assets.drop_first().len() implies asset_view(
            #[trigger] assets.drop_first()[k],
        ) == json_asset(items.drop_first()[k]) by {
            assert(assets.drop_first()[k] == assets[k + 1]);
            assert(asset_view(assets[k + 1]) == json_asset(items[k + 1]));
        }
        lemma_zip_url_matches(assets.drop_first(), items.drop_first());
    }
}

/// Reads the assets of a release reply for their names and download links.
pub fn release_assets(items: &Vec<serde_json::Value>) -> (r: Vec<ReleaseAsset>)
    ensures
        r@.len() == items@.len(),
        forall|k: int| 0 <= k < r@.len() ==> asset_view(#[trigger] r@[k]) == json_asset(items@[k]),
        zip_download_url(r@) == first_zip_url_in(items@),
{
    let mut out: Vec<ReleaseAsset> = Vec::new();
    let mut i: usize = 0;
    while i < items.len()
        invariant
            i <= items@.len(),
            out@.len() == i,
            forall|k: int| 0 <= k < i ==> asset_view(#[trigger] out@[k]) == json_asset(items@[k]),
        decreases items@.len() - i,
    {
        let item = &items[i];
        let a = ReleaseAsset {
            name: text_field(item, "name"),
            browser_download_url: text_field(item, "browser_download_url"),
        };
        out.push(a);
        i = i + 1;
    }
    proof {
        lemma_zip_url_matches(out@, items@);
    }
    out
}

/// The update report for the latest release, read from the release reply: its `tag_name`,
/// `body` and `assets`, each taken as missing when absent or of another type.
pub fn update_info_from_release(release: &serde_json::Value, current_version: &str) -> (r: UpdateInfo)
    ensures
        r.latest_version@ == trim_start_char(text_or_empty(json_field(*release, "tag_name"@)), 'v'),
        r.release_notes@ == text_or_empty(json_field(*release, "body"@)),
        r.download_url@ == first_zip_url(items_of(json_field(*release, "assets"@))),
        r.current_version@ == current_version@,
        r.has_update == newer(version_parts(r.latest_version@), version_parts(current_version@)),
{
    let tag = text_field(release, "tag_name");
    let body = text_field(release, "body");
    let assets = match json_get(release, "assets") {
        Some(v) => match json_as_array(v) {
            Some(items) => release_assets(items),
            None => Vec::new(),
        },
        None => Vec::new(),
    };
    let tag_str: Option<&str> = match &tag {
        Some(t) => Some(t.as_str()),
        None => None,
    };
    let body_str: Option<&str> = match &body {
        Some(b) => Some(b.as_str()),
        None => None,
    };
    proof {
        assert(assets@.len() == 0 ==> zip_download_url(assets@) == Seq::<char>::empty());
    }
    update_info(tag_str, body_str, &assets, current_version)
}

/// The file name of a download: what follows the last `/` of the link.
pub open spec fn file_name_of(url: Seq<char>) -> Seq<char> {
    match rfind_char(url, '/') {
        Some(k) => url.skip(k + 1),
        None => url,
    }
}

pub open spec fn empty_link_message() -> Seq<char> {
    "下载链接为空"@
}

/// The file name under which a download is saved; an error for an empty link.
pub fn download_file_name(download_url: &str) -> (r: Result<String, String>)
    ensures
        download_url@.len() == 0 ==> (r matches Err(e) && e@ == empty_link_message()),
        download_url@.len() > 0 ==> (r matches Ok(n) && n@ == file_name_of(download_url@)),
{
    if download_url.is_empty() {
        return Err(String::from_str("下载链接为空"));
    }
    let s = chars_of(download_url);
    match rfind_char_chars(&s, '/') {
        Some(k) => {
            proof {
                crate::text::lemma_rfind_char_in_range(s@, '/', s@.len() as int);
            }
            assert(s@.len() == s.len());
            let tail = slice_chars(&s, k + 1, s.len());
            assert(tail@ =~= s@.skip(k + 1));
            Ok(string_of(tail.as_slice()))
        },
        None => Ok(String::from_str(download_url)),
    }
}


} // verus!

verus! {

/// No version is newer than itself, and of two versions at most one is newer than the
/// other.
pub proof fn law_newer_is_strict(a: Seq<nat>, b: Seq<nat>)
    ensures
        !newer(a, a),
        newer(a, b) ==> !newer(b, a),
    decreases a.len(),
{
    if a.len() > 0 && b.len() > 0 {
        law_newer_is_strict(a.drop_first(), b.drop_first());
    }
    if a.len() > 0 {
        law_newer_is_strict(a.drop_first(), a.drop_first());
    }
}

/// Versions are ordered by their numbers, compared as numbers from the first on: at the first
/// position where they differ the larger number makes the newer version (so 0.2.10 is newer
/// than 0.2.9), and when one is the other followed by more numbers the longer one is newer.
pub proof fn law_newer_at_first_difference(l: Seq<nat>, c: Seq<nat>, k: int)
    requires
        0 <= k <= l.len(),
        k <= c.len(),
        forall|j: int| 0 <= j < k ==> l[j] == c[j],
    ensures
        k < l.len() && k < c.len() && l[k] > c[k] ==> newer(l, c),
        k < l.len() && k < c.len() && l[k] < c[k] ==> !newer(l, c),
        k == c.len() && k < l.len() ==> newer(l, c),
        k == l.len() ==> !newer(l, c),
    decreases k,
{
    if k > 0 {
        assert(l[0] == c[0]);
        assert forall|j: int| 0 <= j < k - 1 implies l.drop_first()[j] == c.drop_first()[j] by {
            assert(l[j + 1] == c[j + 1]);
        }
        law_newer_at_first_difference(l.drop_first(), c.drop_first(), k - 1);
    }
}

/// A release tagged `v<version>` reports `<version>` as its version.
pub proof fn law_tag_prefix_ignored(version: Seq<char>)
    requires
        version.len() == 0 || version[0] != 'v',
    ensures
        trim_start_char(seq!['v'] + version, 'v') == version,
{
    assert((seq!['v'] + version).drop_first() =~= version);
    assert(trim_start_char(version, 'v') == version);
}

} // verus!
