//! What is known of a device: the cache of device profiles, and the readings that fill it.

use std::collections::VecDeque;

use vstd::prelude::*;

use crate::bounded::queue_of;
use crate::error::ScrcpyError;
use crate::table::Table;
use crate::text::{
    concat, copy_chars, eq_ignoring_ascii_case, find_char, from_chars, has_prefix, parse_u32,
    same_chars, split_at_char, split_lines, to_chars, to_lowercase, trim_chars, trimmed,
};

verus! {

/// A device as it is kept in the cache.
#[derive(Debug, Clone)]
pub struct DeviceProfileSnapshot {
    pub device_id: String,
    pub model: String,
    pub android_version: String,
    pub screen_width: u32,
    pub screen_height: u32,
}

/// A device as a session knows it.
#[derive(Debug, Clone)]
pub struct DeviceProfile {
    pub device_id: String,
    pub model: String,
    pub android_version: String,
    pub screen_width: u32,
    pub screen_height: u32,
}

/// The profiles of the devices that were connected before, by their serial numbers.
#[derive(Debug, Clone)]
pub struct DeviceCache {
    devices: Table<DeviceProfileSnapshot>,
}

impl View for DeviceCache {
    type V = Map<Seq<char>, DeviceProfileSnapshot>;

    closed spec fn view(&self) -> Map<Seq<char>, DeviceProfileSnapshot> {
        self.devices@
    }
}

impl DeviceCache {
    /// Each serial number stands in the cache at most once.
    pub closed spec fn valid(&self) -> bool {
        self.devices.valid()
    }

    /// A cache without devices.
    pub fn new() -> (r: Self)
        ensures
            r.valid(),
            r@ == Map::<Seq<char>, DeviceProfileSnapshot>::empty(),
    {
        DeviceCache { devices: Table::new() }
    }

    /// The profile of a device.
    pub fn get(&self, device_id: &str) -> (r: Option<&DeviceProfileSnapshot>)
        requires
            self.valid(),
        ensures
            match r {
                Some(p) => self@.dom().contains(device_id@) && *p == self@[device_id@],
                None => !self@.dom().contains(device_id@),
            },
    {
        self.devices.get(device_id)
    }

    /// Keeps a profile, in place of the one that the device had.
    pub fn upsert(&mut self, profile: DeviceProfileSnapshot)
        requires
            old(self).valid(),
        ensures
            final(self).valid(),
            final(self)@ == old(self)@.insert(profile.device_id@, profile),
    {
        let key: String = profile.device_id.clone();
        self.devices.insert(key, profile);
    }

    /// The serial numbers of the devices, in ascending order.
    pub fn device_ids(&self) -> (r: Vec<String>)
        requires
            self.valid(),
        ensures
            crate::table::sorted_texts(r@),
            forall|k: Seq<char>|
                self@.dom().contains(k) <==> crate::text::strings_view(r@).contains(k),
    {
        self.devices.sorted_keys()
    }

    /// What the cache holds.
    pub fn entries(&self) -> (r: Vec<(String, DeviceProfileSnapshot)>)
        requires
            self.valid(),
        ensures
            entries_map(r@) == self@,
    {
        let ids: Vec<String> = self.device_ids();
        let ghost keys = crate::text::strings_view(ids@);
        let mut out: Vec<(String, DeviceProfileSnapshot)> = Vec::new();
        let mut i: usize = 0;
        proof {
            assert(entries_map(out@) =~= self@.restrict(keys.take(0).to_set()));
        }
        while i < ids.len()
            invariant
                self.valid(),
                i <= ids.len(),
                keys == crate::text::strings_view(ids@),
                forall|k: Seq<char>| self@.dom().contains(k) <==> keys.contains(k),
                entries_map(out@) == self@.restrict(keys.take(i as int).to_set()),
            decreases ids.len() - i,
        {
            assert(keys[i as int] == ids@[i as int]@);
            assert(keys.contains(ids@[i as int]@));
            if let Some(p) = self.get(ids[i].as_str()) {
                let ghost before = out@;
                let copy = DeviceProfileSnapshot {
                    device_id: p.device_id.clone(),
                    model: p.model.clone(),
                    android_version: p.android_version.clone(),
                    screen_width: p.screen_width,
                    screen_height: p.screen_height,
                };
                out.push((ids[i].clone(), copy));
                proof {
                    let shorter = keys.take(i as int);
                    let longer = keys.take(i + 1);
                    let id = ids@[i as int]@;
                    assert(out@.drop_last() =~= before);
                    assert(longer =~= shorter.push(id));
                    assert forall|k: Seq<char>| longer.contains(k) <==> shorter.contains(k) || k
                        == id by {
                        if shorter.contains(k) {
                            let j = choose|j: int| 0 <= j < shorter.len() && shorter[j] == k;
                            assert(longer[j] == k);
                        }
                        assert(longer[i as int] == id);
                    }
                    assert(entries_map(out@) =~= self@.restrict(longer.to_set()));
                }
            }
            i = i + 1;
        }
        proof {
            assert(keys.take(i as int) =~= keys);
            assert(self@.restrict(keys.to_set()) =~= self@);
        }
        out
    }

    /// The cache that a file holds. Without a file there is an empty one.
    pub fn load(outcome: CacheRead) -> (r: Result<DeviceCache, ScrcpyError>)
        ensures
            match outcome {
                CacheRead::Missing => r matches Ok(c) && c.valid() && c@ == Map::<
                    Seq<char>,
                    DeviceProfileSnapshot,
                >::empty(),
                CacheRead::Unreadable(m) => r matches Err(e) && e@
                    == crate::error::ErrorView::Other("读取设备缓存失败: "@ + m@),
                CacheRead::Unparsable(m) => r matches Err(e) && e@
                    == crate::error::ErrorView::Other("解析设备缓存失败: "@ + m@),
                CacheRead::Entries(entries) => r matches Ok(c) && c.valid() && c@ == entries_map(
                    entries@,
                ),
            },
    {
        match outcome {
            CacheRead::Missing => Ok(DeviceCache::new()),
            CacheRead::Unreadable(m) => Err(
                ScrcpyError::Other(concat("读取设备缓存失败: ", m.as_str())),
            ),
            CacheRead::Unparsable(m) => Err(
                ScrcpyError::Other(concat("解析设备缓存失败: ", m.as_str())),
            ),
            CacheRead::Entries(entries) => {
                let ghost all = entries@;
                let mut rest: VecDeque<(String, DeviceProfileSnapshot)> = queue_of(entries);
                let mut cache = DeviceCache::new();
                let mut done: Ghost<int> = Ghost(0);
                assert(all.take(0) =~= Seq::empty());
                assert(rest@ =~= all.skip(0));
                while rest.len() > 0
                    invariant
                        0 <= done@ <= all.len(),
                        rest@ == all.skip(done@),
                        cache.valid(),
                        cache@ == entries_map(all.take(done@)),
                    decreases rest.len(),
                {
                    if let Some(entry) = rest.pop_front() {
                        cache.devices.insert(entry.0, entry.1);
                        proof {
                            let now = all.take(done@ + 1);
                            assert(entry == all[done@]);
                            assert(now.drop_last() =~= all.take(done@));
                            assert(now.last() == entry);
                            assert(rest@ =~= all.skip(done@ + 1));
                            done@ = done@ + 1;
                        }
                    }
                }
                assert(all.take(done@) =~= all);
                Ok(cache)
            },
        }
    }

    /// The error for a step of writing the cache to a file that failed.
    pub fn save_error(step: SaveStep, detail: &str) -> (r: ScrcpyError)
        ensures
            r@ == crate::error::ErrorView::Other(
                match step {
                    SaveStep::MakeDirectory => "创建设备缓存目录失败: "@,
                    SaveStep::MakeText => "序列化设备缓存失败: "@,
                    SaveStep::WriteFile => "写入设备缓存失败: "@,
                } + detail@,
            ),
    {
        let prefix: &'static str = match step {
            SaveStep::MakeDirectory => "创建设备缓存目录失败: ",
            SaveStep::MakeText => "序列化设备缓存失败: ",
            SaveStep::WriteFile => "写入设备缓存失败: ",
        };
        ScrcpyError::Other(concat(prefix, detail))
    }
}

/// How reading the file of the cache went: there is none, it could not be read, its text could
/// not be understood, or it holds these entries.
#[derive(Debug)]
pub enum CacheRead {
    Missing,
    Unreadable(String),
    Unparsable(String),
    Entries(Vec<(String, DeviceProfileSnapshot)>),
}

/// The steps of writing the cache to a file.
#[derive(Debug, Clone, Copy, PartialEq, Eq, Structural)]
pub enum SaveStep {
    MakeDirectory,
    MakeText,
    WriteFile,
}

/// What entries come to, one after the other.
pub open spec fn entries_map(entries: Seq<(String, DeviceProfileSnapshot)>) -> Map<
    Seq<char>,
    DeviceProfileSnapshot,
>
    decreases entries.len(),
{
    if entries.len() == 0 {
        Map::empty()
    } else {
        entries_map(entries.drop_last()).insert(entries.last().0@, entries.last().1)
    }
}

/// The size that a text of the form `1080x2400` spells; both sides are positive. Anything behind
/// a second `x` is ignored.
pub open spec fn size_pair(s: Seq<char>) -> Option<(u32, u32)> {
    let parts = crate::text::split_on(s, 'x');
    if parts.len() < 2 {
        None
    } else {
        match (
            crate::text::parsed_u32(crate::text::trim(parts[0])),
            crate::text::parsed_u32(crate::text::trim(parts[1])),
        ) {
            (Some(w), Some(h)) => if w > 0 && h > 0 {
                Some((w, h))
            } else {
                None
            },
            _ => None,
        }
    }
}

/// The size on a line that starts with `Physical size:`.
pub open spec fn physical_size(line: Seq<char>) -> Option<(u32, u32)> {
    let t = crate::text::trim(line);
    if crate::text::starts_with(t, "Physical size:"@) {
        size_pair(crate::text::trim(t.skip("Physical size:"@.len() as int)))
    } else {
        None
    }
}

/// The size on a line that holds nothing else.
pub open spec fn plain_size(line: Seq<char>) -> Option<(u32, u32)> {
    let t = crate::text::trim(line);
    if crate::text::starts_with(t, "Physical size:"@) {
        None
    } else {
        size_pair(t)
    }
}

/// The size on a line, behind the first colon where there is one.
pub open spec fn labelled_size(line: Seq<char>) -> Option<(u32, u32)> {
    let t = crate::text::trim(line);
    let i = crate::text::index_of(t, ':') as int;
    if i < t.len() {
        size_pair(crate::text::trim(t.skip(i + 1)))
    } else {
        size_pair(t)
    }
}

/// The first size that `read` finds on a line.
pub open spec fn first_size(
    lines: Seq<Seq<char>>,
    read: spec_fn(Seq<char>) -> Option<(u32, u32)>,
) -> Option<(u32, u32)>
    decreases lines.len(),
{
    if lines.len() == 0 {
        None
    } else {
        match read(lines[0]) {
            Some(size) => Some(size),
            None => first_size(lines.drop_first(), read),
        }
    }
}

/// The size that the output of `wm size` gives: the first physical size, or else the first size
/// that stands alone on a line.
pub open spec fn screen_size(output: Seq<char>) -> Option<(u32, u32)> {
    let ls = crate::text::lines(output);
    match first_size(ls, |l: Seq<char>| physical_size(l)) {
        Some(size) => Some(size),
        None => first_size(ls, |l: Seq<char>| plain_size(l)),
    }
}

/// The first size in the output of `wm size`, whatever stands before it on its line.
pub open spec fn any_size(output: Seq<char>) -> Option<(u32, u32)> {
    first_size(crate::text::lines(output), |l: Seq<char>| labelled_size(l))
}

/// Reads a size of the form `1080x2400`.
pub fn parse_size_pair(s: &[char]) -> (r: Option<(u32, u32)>)
    ensures
        r == size_pair(s@),
{
    let parts = split_at_char(s, 'x');
    let ghost views = crate::text::split_on(s@, 'x');
    assert(views.len() == parts@.len());
    if parts.len() < 2 {
        return None;
    }
    assert(parts@[0]@ == views[0] && parts@[1]@ == views[1]);
    let w: u32 = match parse_u32(trim_chars(parts[0].as_slice())) {
        Some(v) => v,
        None => {
            return None;
        },
    };
    let h: u32 = match parse_u32(trim_chars(parts[1].as_slice())) {
        Some(v) => v,
        None => {
            return None;
        },
    };
    if w == 0 || h == 0 {
        return None;
    }
    Some((w, h))
}

/// Reads the screen size from the output of `wm size`.
pub fn parse_wm_size(output: &str) -> (r: Result<(u32, u32), ScrcpyError>)
    ensures
        match r {
            Ok(size) => screen_size(output@) == Some(size),
            Err(e) => screen_size(output@) is None && e@ == crate::error::ErrorView::Parse(
                "无法解析 wm size 输出: "@ + output@,
            ),
        },
{
    let chars = to_chars(output);
    let ls = split_lines(chars.as_slice());
    let label = to_chars("Physical size:");
    let ghost all = crate::text::lines(output@);
    let ghost physical = |l: Seq<char>| physical_size(l);
    let ghost plain = |l: Seq<char>| plain_size(l);
    let mut candidate: Option<(u32, u32)> = None;
    let mut i: usize = 0;
    assert(all.skip(0) =~= all);
    assert(all.len() == ls@.len());
    while i < ls.len()
        invariant
            i <= ls.len(),
            all == crate::text::lines(output@),
            all == crate::text::texts_view(ls@),
            label@ == "Physical size:"@,
            physical == |l: Seq<char>| physical_size(l),
            plain == |l: Seq<char>| plain_size(l),
            first_size(all, physical) == first_size(all.skip(i as int), physical),
            first_size(all, plain) == (match candidate {
                Some(c) => Some(c),
                None => first_size(all.skip(i as int), plain),
            }),
        decreases ls.len() - i,
    {
        let ghost rest = all.skip(i as int);
        proof {
            assert(rest[0] == ls@[i as int]@);
            assert(rest.drop_first() =~= all.skip(i + 1));
        }
        let line: &[char] = trim_chars(ls[i].as_slice());
        if has_prefix(line, label.as_slice()) {
            let n: usize = line.len();
            let value: &[char] = &line[label.len()..n];
            assert(value@ =~= line@.skip("Physical size:"@.len() as int));
            if let Some(size) = parse_size_pair(trim_chars(value)) {
                return Ok(size);
            }
        } else if candidate.is_none() {
            candidate = parse_size_pair(line);
        }
        i = i + 1;
    }
    match candidate {
        Some(size) => Ok(size),
        None => Err(ScrcpyError::Parse(concat("无法解析 wm size 输出: ", output))),
    }
}

/// Reads the first size in the output of `wm size`.
pub fn parse_any_size(output: &str) -> (r: Option<(u32, u32)>)
    ensures
        r == any_size(output@),
{
    let chars = to_chars(output);
    let ls = split_lines(chars.as_slice());
    let ghost all = crate::text::lines(output@);
    let ghost read = |l: Seq<char>| labelled_size(l);
    let mut i: usize = 0;
    assert(all.skip(0) =~= all);
    assert(all.len() == ls@.len());
    while i < ls.len()
        invariant
            i <= ls.len(),
            all == crate::text::lines(output@),
            all == crate::text::texts_view(ls@),
            read == |l: Seq<char>| labelled_size(l),
            first_size(all, read) == first_size(all.skip(i as int), read),
        decreases ls.len() - i,
    {
        let ghost rest = all.skip(i as int);
        proof {
            assert(rest[0] == ls@[i as int]@);
            assert(rest.drop_first() =~= all.skip(i + 1));
        }
        let line: &[char] = trim_chars(ls[i].as_slice());
        let n: usize = line.len();
        let colon: usize = find_char(line, ':');
        let size: Option<(u32, u32)> = if colon < n {
            let value: &[char] = &line[colon + 1..n];
            assert(value@ =~= line@.skip(colon + 1));
            parse_size_pair(trim_chars(value))
        } else {
            parse_size_pair(line)
        };
        if size.is_some() {
            return size;
        }
        i = i + 1;
    }
    None
}

/// A question to a device.
#[derive(Debug, Clone, Copy, PartialEq, Eq, Structural)]
pub enum DeviceQuery {
    Brand,
    Manufacturer,
    Model,
    AndroidVersion,
    Sdk,
    ScreenSize,
}

impl DeviceQuery {
    /// The command on the device that answers the question.
    pub open spec fn text(self) -> Seq<char> {
        match self {
            DeviceQuery::Brand => "getprop ro.product.brand"@,
            DeviceQuery::Manufacturer => "getprop ro.product.manufacturer"@,
            DeviceQuery::Model => "getprop ro.product.model"@,
            DeviceQuery::AndroidVersion => "getprop ro.build.version.release"@,
            DeviceQuery::Sdk => "getprop ro.build.version.sdk"@,
            DeviceQuery::ScreenSize => "wm size"@,
        }
    }

    /// The command on the device that answers the question.
    pub fn command(self) -> (r: &'static str)
        ensures
            r@ == self.text(),
    {
        match self {
            DeviceQuery::Brand => "getprop ro.product.brand",
            DeviceQuery::Manufacturer => "getprop ro.product.manufacturer",
            DeviceQuery::Model => "getprop ro.product.model",
            DeviceQuery::AndroidVersion => "getprop ro.build.version.release",
            DeviceQuery::Sdk => "getprop ro.build.version.sdk",
            DeviceQuery::ScreenSize => "wm size",
        }
    }
}

/// The profile of a device that is in the cache.
pub fn cached_profile(cache: &DeviceCache, device_id: &str) -> (r: Option<DeviceProfile>)
    requires
        cache.valid(),
    ensures
        match r {
            Some(p) => cache@.dom().contains(device_id@) && profile_of(cache@[device_id@]) == p,
            None => !cache@.dom().contains(device_id@),
        },
{
    match cache.get(device_id) {
        Some(c) => Some(
            DeviceProfile {
                device_id: c.device_id.clone(),
                model: c.model.clone(),
                android_version: c.android_version.clone(),
                screen_width: c.screen_width,
                screen_height: c.screen_height,
            },
        ),
        None => None,
    }
}

/// The profile that a snapshot holds.
pub open spec fn profile_of(s: DeviceProfileSnapshot) -> DeviceProfile {
    DeviceProfile {
        device_id: s.device_id,
        model: s.model,
        android_version: s.android_version,
        screen_width: s.screen_width,
        screen_height: s.screen_height,
    }
}

/// The profile of a device from what it answered to the questions for its model, its Android
/// version and its screen size. It goes into the cache. A screen size that cannot be read is an
/// error, and the cache stays as it was.
pub fn probed_profile(
    cache: &mut DeviceCache,
    device_id: &str,
    model: &str,
    android_version: &str,
    wm_size: &str,
) -> (r: Result<DeviceProfile, ScrcpyError>)
    requires
        old(cache).valid(),
    ensures
        final(cache).valid(),
        match r {
            Ok(p) => {
                &&& screen_size(wm_size@) == Some((p.screen_width, p.screen_height))
                &&& p.device_id@ == device_id@
                &&& p.model@ == crate::text::trim(model@)
                &&& p.android_version@ == crate::text::trim(android_version@)
                &&& final(cache)@.dom() == old(cache)@.dom().insert(device_id@)
                &&& profile_of(final(cache)@[device_id@]) == p
                &&& final(cache)@.remove(device_id@) == old(cache)@.remove(device_id@)
            },
            Err(e) => screen_size(wm_size@) is None && e@ == crate::error::ErrorView::Parse(
                "无法解析 wm size 输出: "@ + wm_size@,
            ) && final(cache)@ == old(cache)@,
        },
{
    let size: (u32, u32) = match parse_wm_size(wm_size) {
        Ok(v) => v,
        Err(e) => {
            return Err(e);
        },
    };
    let profile = DeviceProfile {
        device_id: device_id.to_owned(),
        model: trimmed(model),
        android_version: trimmed(android_version),
        screen_width: size.0,
        screen_height: size.1,
    };
    let snapshot = DeviceProfileSnapshot {
        device_id: profile.device_id.clone(),
        model: profile.model.clone(),
        android_version: profile.android_version.clone(),
        screen_width: profile.screen_width,
        screen_height: profile.screen_height,
    };
    cache.upsert(snapshot);
    assert(cache@.dom() =~= old(cache)@.dom().insert(device_id@));
    assert(cache@.remove(device_id@) =~= old(cache)@.remove(device_id@));
    Ok(profile)
}

/// A device that has been probed is found in the cache afterwards, with the profile that was
/// read; other devices are found as before.
pub proof fn law_probe_then_cached(
    before: Map<Seq<char>, DeviceProfileSnapshot>,
    snapshot: DeviceProfileSnapshot,
    other: Seq<char>,
)
    ensures
        before.insert(snapshot.device_id@, snapshot).dom().contains(snapshot.device_id@),
        before.insert(snapshot.device_id@, snapshot)[snapshot.device_id@] == snapshot,
        other != snapshot.device_id@ ==> before.insert(
            snapshot.device_id@,
            snapshot,
        ).dom().contains(other) == before.dom().contains(other),
        other != snapshot.device_id@ && before.dom().contains(other) ==> before.insert(
            snapshot.device_id@,
            snapshot,
        )[other] == before[other],
{
}

/// What a device answered to the questions about itself; nothing where a question failed.
pub struct DeviceReadings {
    pub brand: Option<String>,
    pub manufacturer: Option<String>,
    pub model: Option<String>,
    pub android_version: Option<String>,
    pub sdk: Option<String>,
    pub wm_size: Option<String>,
}

/// An answer without white space around it, or the text that stands for a failed question.
pub open spec fn answer(a: Option<String>, otherwise: Seq<char>) -> Seq<char> {
    match a {
        Some(t) => crate::text::trim(t@),
        None => crate::text::trim(otherwise),
    }
}

fn answer_text(a: &Option<String>, otherwise: &str) -> (r: String)
    ensures
        r@ == answer(*a, otherwise@),
{
    match a {
        Some(t) => trimmed(t.as_str()),
        None => trimmed(otherwise),
    }
}

/// The name shown for a device. A model that is unknown gives way to the manufacturer, or else to
/// the brand. A known model gets the brand in front, unless it starts with it whatever the case:
/// `brand_lower` and `model_lower` are the two in lower case.
pub open spec fn shown_model(
    brand: Seq<char>,
    manufacturer: Seq<char>,
    model: Seq<char>,
    brand_lower: Seq<char>,
    model_lower: Seq<char>,
) -> Seq<char> {
    if crate::text::same_ignoring_ascii_case(model, "unknown"@) || model.len() == 0 {
        if manufacturer.len() > 0 {
            manufacturer
        } else if brand.len() > 0 {
            brand
        } else {
            model
        }
    } else if brand.len() > 0 && !crate::text::starts_with(model_lower, brand_lower) {
        brand + " "@ + model
    } else {
        model
    }
}

/// The name shown for a device, from its readings and their lower-case forms.
pub fn display_model(
    brand: &str,
    manufacturer: &str,
    model: &str,
    brand_lower: &str,
    model_lower: &str,
) -> (r: String)
    ensures
        r@ == shown_model(brand@, manufacturer@, model@, brand_lower@, model_lower@),
{
    if eq_ignoring_ascii_case(model, "unknown") || model.is_empty() {
        if !manufacturer.is_empty() {
            manufacturer.to_owned()
        } else if !brand.is_empty() {
            brand.to_owned()
        } else {
            model.to_owned()
        }
    } else {
        let m = to_chars(model_lower);
        let b = to_chars(brand_lower);
        if !brand.is_empty() && !has_prefix(m.as_slice(), b.as_slice()) {
            let mut out: String = concat(brand, " ");
            out.append(model);
            out
        } else {
            model.to_owned()
        }
    }
}

/// The Android version shown for a device: with the SDK level, where both are known.
pub open spec fn shown_version(version: Seq<char>, sdk: Seq<char>) -> Seq<char> {
    if !crate::text::same_ignoring_ascii_case(version, "unknown"@) && sdk.len() > 0 {
        version + " (SDK "@ + sdk + ")"@
    } else {
        version
    }
}

fn display_version(version: &str, sdk: &str) -> (r: String)
    ensures
        r@ == shown_version(version@, sdk@),
{
    if !eq_ignoring_ascii_case(version, "unknown") && !sdk.is_empty() {
        let mut out: String = concat(version, " (SDK ");
        out.append(sdk);
        out.append(")");
        out
    } else {
        version.to_owned()
    }
}

/// The size that an answer gives; zero by zero where it gives none.
pub open spec fn size_or_zero(wm_size: Option<String>) -> (u32, u32) {
    let raw = match wm_size {
        Some(t) => t@,
        None => Seq::empty(),
    };
    match any_size(raw) {
        Some(size) => size,
        None => (0u32, 0u32),
    }
}

fn size_of_answer(wm_size: &Option<String>) -> (r: (u32, u32))
    ensures
        r == size_or_zero(*wm_size),
{
    let size: Option<(u32, u32)> = match wm_size {
        Some(t) => parse_any_size(t.as_str()),
        None => {
            let empty: String = String::new();
            parse_any_size(empty.as_str())
        },
    };
    match size {
        Some(v) => v,
        None => (0, 0),
    }
}

/// The details of a device from its readings. A question that failed leaves its field at a
/// default; none makes the whole fail.
pub fn get_device_info(device_id: String, readings: &DeviceReadings) -> (r:
    crate::model::DeviceInfo)
    ensures
        r.device_id == device_id,
        ({
            let brand = answer(readings.brand, ""@);
            let model = answer(readings.model, "Unknown"@);
            r.model@ == shown_model(
                brand,
                answer(readings.manufacturer, ""@),
                model,
                crate::text::lowercase(brand),
                crate::text::lowercase(model),
            )
        }),
        r.android_version@ == shown_version(
            answer(readings.android_version, "Unknown"@),
            answer(readings.sdk, ""@),
        ),
        (r.width, r.height) == size_or_zero(readings.wm_size),
        r.ip is None,
{
    let brand: String = answer_text(&readings.brand, "");
    let manufacturer: String = answer_text(&readings.manufacturer, "");
    let model: String = answer_text(&readings.model, "Unknown");
    let version: String = answer_text(&readings.android_version, "Unknown");
    let sdk: String = answer_text(&readings.sdk, "");
    let size: (u32, u32) = size_of_answer(&readings.wm_size);
    let brand_lower: String = to_lowercase(brand.as_str());
    let model_lower: String = to_lowercase(model.as_str());
    crate::model::DeviceInfo {
        device_id,
        model: display_model(
            brand.as_str(),
            manufacturer.as_str(),
            model.as_str(),
            brand_lower.as_str(),
            model_lower.as_str(),
        ),
        android_version: display_version(version.as_str(), sdk.as_str()),
        width: size.0,
        height: size.1,
        ip: None,
    }
}

/// The details of a device from its model, its Android version and its screen size alone.
pub fn get_basic_device_info(
    device_id: String,
    model: &Option<String>,
    android_version: &Option<String>,
    wm_size: &Option<String>,
) -> (r: crate::model::DeviceInfo)
    ensures
        r.device_id == device_id,
        r.model@ == answer(*model, "Unknown"@),
        r.android_version@ == answer(*android_version, "Unknown"@),
        (r.width, r.height) == size_or_zero(*wm_size),
        r.ip is None,
{
    let size: (u32, u32) = size_of_answer(wm_size);
    crate::model::DeviceInfo {
        device_id,
        model: answer_text(model, "Unknown"),
        android_version: answer_text(android_version, "Unknown"),
        width: size.0,
        height: size.1,
        ip: None,
    }
}

/// The details of a device of which only the serial number is known.
pub open spec fn is_bare_device(d: crate::model::DeviceInfo, id: Seq<char>) -> bool {
    &&& d.device_id@ == id
    &&& d.model@ == "Unknown"@
    &&& d.android_version@ == "Unknown"@
    &&& d.width == 0
    &&& d.height == 0
    &&& d.ip is None
}

/// The details of a device of which only the serial number is known.
pub fn bare_device(device_id: String) -> (r: crate::model::DeviceInfo)
    ensures
        is_bare_device(r, device_id@),
{
    crate::model::DeviceInfo {
        device_id,
        model: "Unknown".to_owned(),
        android_version: "Unknown".to_owned(),
        width: 0,
        height: 0,
        ip: None,
    }
}

/// The device that a line of the output of `adb devices` lists as ready: its serial number and
/// its state are parted by a tab.
pub open spec fn tabbed_device(line: Seq<char>) -> Option<Seq<char>> {
    let t = crate::text::trim(line);
    let i = crate::text::index_of(t, '\t') as int;
    if t.len() == 0 || crate::text::starts_with(t, "List of devices"@) || i >= t.len() {
        None
    } else if crate::text::trim(t.skip(i + 1)) == "device"@ {
        Some(crate::text::trim(t.take(i)))
    } else {
        None
    }
}

/// The devices in lines of the output of `adb devices`, in order.
pub open spec fn tabbed_devices(lines: Seq<Seq<char>>) -> Seq<Seq<char>>
    decreases lines.len(),
{
    if lines.len() == 0 {
        Seq::empty()
    } else {
        let before = tabbed_devices(lines.drop_last());
        match tabbed_device(lines.last()) {
            Some(id) => before.push(id),
            None => before,
        }
    }
}

/// The devices that the output of `adb devices` lists as ready, each with nothing known but its
/// serial number.
pub fn list_devices(output: &str) -> (r: Vec<crate::model::DeviceInfo>)
    ensures
        r@.len() == tabbed_devices(crate::text::lines(output@)).len(),
        forall|i: int|
            0 <= i < r@.len() ==> is_bare_device(
                #[trigger] r@[i],
                tabbed_devices(crate::text::lines(output@))[i],
            ),
{
    let chars = to_chars(output);
    let ls = split_lines(chars.as_slice());
    let heading = to_chars("List of devices");
    let ready = to_chars("device");
    let ghost all = crate::text::lines(output@);
    let mut out: Vec<crate::model::DeviceInfo> = Vec::new();
    let mut i: usize = 0;
    assert(all.len() == ls@.len());
    assert(all.take(0) =~= Seq::empty());
    while i < ls.len()
        invariant
            i <= ls.len(),
            all == crate::text::lines(output@),
            all == crate::text::texts_view(ls@),
            heading@ == "List of devices"@,
            ready@ == "device"@,
            out@.len() == tabbed_devices(all.take(i as int)).len(),
            forall|k: int|
                0 <= k < out@.len() ==> is_bare_device(
                    #[trigger] out@[k],
                    tabbed_devices(all.take(i as int))[k],
                ),
        decreases ls.len() - i,
    {
        proof {
            assert(all.take(i + 1).drop_last() =~= all.take(i as int));
            assert(all.take(i + 1).last() == ls@[i as int]@);
        }
        let line: &[char] = trim_chars(ls[i].as_slice());
        let n: usize = line.len();
        let tab: usize = find_char(line, '\t');
        if n > 0 && !has_prefix(line, heading.as_slice()) && tab < n {
            let state: &[char] = trim_chars(&line[tab + 1..n]);
            assert(line@.subrange(tab + 1, n as int) =~= line@.skip(tab + 1));
            let state_chars = copy_chars(state);
            if same_chars(&state_chars, &ready) {
                let id: &[char] = trim_chars(&line[0..tab]);
                assert(line@.subrange(0, tab as int) =~= line@.take(tab as int));
                out.push(bare_device(from_chars(id)));
            }
        }
        i = i + 1;
    }
    assert(all.take(ls@.len() as int) =~= all);
    out
}

/// The spelling of a size.
pub open spec fn size_text(w: u32, h: u32) -> Seq<char> {
    crate::text::decimal(w as nat).push('x') + crate::text::decimal(h as nat)
}

proof fn lemma_number_text(n: nat)
    ensures
        crate::text::decimal(n).len() > 0,
        forall|j: int|
            0 <= j < crate::text::decimal(n).len() ==> '0' <= #[trigger] crate::text::decimal(n)[j]
                <= '9',
        crate::text::trim(crate::text::decimal(n)) == crate::text::decimal(n),
        !crate::text::decimal(n).contains('x'),
{
    let d = crate::text::decimal(n);
    crate::text::lemma_decimal(n);
    assert forall|j: int| 0 <= j < d.len() implies '0' <= #[trigger] d[j] <= '9' by {
        assert(crate::text::is_digit(d[j]));
    }
    let none = Seq::<char>::empty();
    crate::text::law_trim(none, d, none);
    assert(none + d + none =~= d);
}

proof fn lemma_size_text(w: u32, h: u32)
    ensures
        crate::text::split_on(size_text(w, h), 'x') == seq![
            crate::text::decimal(w as nat),
            crate::text::decimal(h as nat),
        ],
        size_text(w, h).len() > 0,
        '0' <= size_text(w, h)[0] <= '9',
        '0' <= size_text(w, h).last() <= '9',
        !size_text(w, h).contains(':'),
        crate::text::trim(size_text(w, h)) == size_text(w, h),
{
    let a = crate::text::decimal(w as nat);
    let b = crate::text::decimal(h as nat);
    lemma_number_text(w as nat);
    lemma_number_text(h as nat);
    crate::text::law_split_on(a, b, 'x');
    crate::text::law_split_on(b, b, 'x');
    assert(seq![a] + seq![b] =~= seq![a, b]);
    let s = size_text(w, h);
    assert(s[0] == a[0]);
    assert(s.last() == b[b.len() - 1]);
    assert forall|j: int| 0 <= j < s.len() implies s[j] != ':' by {
        if j < a.len() {
            assert(s[j] == a[j]);
        } else if j > a.len() {
            assert(s[j] == b[j - a.len() - 1]);
        }
    }
    let none = Seq::<char>::empty();
    crate::text::law_trim(none, s, none);
    assert(none + s + none =~= s);
}

/// The spelling of a size is read back as the width and the height, in that order, whatever is behind
/// a second `x`; a size with a side of zero is none.
pub proof fn law_size_round_trip(w: u32, h: u32, rest: Seq<char>)
    ensures
        size_pair(size_text(w, h)) == (if w > 0 && h > 0 {
            Some((w, h))
        } else {
            None
        }),
        size_pair(size_text(w, h).push('x') + rest) == size_pair(size_text(w, h)),
{
    let a = crate::text::decimal(w as nat);
    let b = crate::text::decimal(h as nat);
    lemma_size_text(w, h);
    lemma_number_text(w as nat);
    lemma_number_text(h as nat);
    crate::text::law_parse_decimal(w);
    crate::text::law_parse_decimal(h);
    let longer = size_text(w, h).push('x') + rest;
    assert(longer =~= a.push('x') + (b.push('x') + rest));
    crate::text::law_split_on(a, b.push('x') + rest, 'x');
    crate::text::law_split_on(b, rest, 'x');
    let parts = crate::text::split_on(longer, 'x');
    let tail = crate::text::split_on(b.push('x') + rest, 'x');
    assert(parts == seq![a] + tail);
    assert(tail == seq![b] + crate::text::split_on(rest, 'x'));
    assert(parts[0] == a && parts[1] == tail[0] && tail[0] == b);
    assert(parts.len() >= 2);
}

/// A text without an `x` is no size, and both sides of a size are above zero.
pub proof fn law_size_has_two_sides(s: Seq<char>)
    ensures
        !s.contains('x') ==> size_pair(s) is None,
        size_pair(s) matches Some(size) ==> size.0 > 0 && size.1 > 0,
{
    if !s.contains('x') {
        crate::text::law_split_on(s, s, 'x');
    }
}

/// A size behind the words `Physical size:` is a physical size and does not stand alone; a size with
/// nothing but white space around it stands alone and is no physical size.
pub proof fn law_size_lines(w: u32, h: u32, before: Seq<char>, after: Seq<char>)
    requires
        w > 0,
        h > 0,
        forall|j: int| 0 <= j < before.len() ==> crate::text::is_white(#[trigger] before[j]),
        forall|j: int| 0 <= j < after.len() ==> crate::text::is_white(#[trigger] after[j]),
    ensures
        physical_size("Physical size:"@ + before + size_text(w, h) + after) == Some((w, h)),
        plain_size("Physical size:"@ + before + size_text(w, h) + after) is None,
        plain_size(before + size_text(w, h) + after) == Some((w, h)),
        physical_size(before + size_text(w, h) + after) is None,
{
    reveal_strlit("Physical size:");
    let label = "Physical size:"@;
    let s = size_text(w, h);
    let none = Seq::<char>::empty();
    lemma_size_text(w, h);
    law_size_round_trip(w, h, none);
    // A labelled line.
    let core = label + before + s;
    crate::text::law_trim(none, core, after);
    assert(core.last() == s.last());
    assert(none + core + after =~= label + before + s + after);
    assert(core.take(label.len() as int) =~= label);
    assert(core.skip(label.len() as int) =~= before + s + none);
    crate::text::law_trim(before, s, none);
    // A plain line.
    crate::text::law_trim(before, s, after);
    assert(s.len() >= label.len() ==> s.take(label.len() as int)[0] == s[0]);
    assert(label[0] == 'P');
}

/// Where sizes are looked for on any line, a size counts whatever stands in front of it, up to the
/// first colon.
pub proof fn law_labelled_size(w: u32, h: u32, label: Seq<char>, white: Seq<char>)
    requires
        w > 0,
        h > 0,
        label.len() > 0 ==> !crate::text::is_white(label[0]),
        !label.contains(':'),
        forall|j: int| 0 <= j < white.len() ==> crate::text::is_white(#[trigger] white[j]),
    ensures
        labelled_size(label.push(':') + white + size_text(w, h)) == Some((w, h)),
        labelled_size(white + size_text(w, h)) == Some((w, h)),
{
    let s = size_text(w, h);
    let none = Seq::<char>::empty();
    lemma_size_text(w, h);
    law_size_round_trip(w, h, none);
    let line = label.push(':') + white + s;
    crate::text::law_trim(none, line, none);
    assert(line.last() == s.last());
    assert(line[0] == if label.len() > 0 { label[0] } else { ':' });
    assert(none + line + none =~= line);
    crate::text::lemma_index_of(line, ':');
    let n = label.len() as int;
    assert(line[n] == ':');
    let i = crate::text::index_of(line, ':') as int;
    if i < n {
        assert(label[i] == ':');
        assert(label.contains(label[i]));
    }
    assert(i == n);
    assert(line.skip(n + 1) =~= white + s + none);
    crate::text::law_trim(white, s, none);
    assert(white + s + none =~= white + s);
    crate::text::lemma_index_of(s, ':');
    let k = crate::text::index_of(s, ':') as int;
    if k < s.len() {
        assert(s.contains(s[k]));
    }
}

proof fn lemma_first_size(
    lines: Seq<Seq<char>>,
    read: spec_fn(Seq<char>) -> Option<(u32, u32)>,
) -> (k: int)
    ensures
        first_size(lines, read) is Some ==> 0 <= k < lines.len() && read(lines[k]) == first_size(
            lines,
            read,
        ) && forall|j: int| 0 <= j < k ==> read(#[trigger] lines[j]) is None,
        first_size(lines, read) is None ==> forall|j: int|
            0 <= j < lines.len() ==> read(#[trigger] lines[j]) is None,
    decreases lines.len(),
{
    if lines.len() == 0 {
        0
    } else if read(lines[0]) is Some {
        0
    } else {
        let rest = lines.drop_first();
        let k = lemma_first_size(rest, read);
        if first_size(rest, read) is Some {
            assert(rest[k] == lines[k + 1]);
            assert forall|j: int| 0 <= j < k + 1 implies read(#[trigger] lines[j]) is None by {
                if j > 0 {
                    assert(rest[j - 1] == lines[j]);
                }
            }
        } else {
            assert forall|j: int| 0 <= j < lines.len() implies read(#[trigger] lines[j]) is None by {
                if j > 0 {
                    assert(rest[j - 1] == lines[j]);
                }
            }
        }
        k + 1
    }
}

/// A physical size goes before one that stands alone, wherever the two are, and the first of its
/// sort counts. There is no size exactly when no line has one of either sort.
pub proof fn law_physical_size_goes_first(output: Seq<char>)
    ensures
        ({
            let ls = crate::text::lines(output);
            let found = screen_size(output);
            &&& (exists|k: int| 0 <= k < ls.len() && physical_size(#[trigger] ls[k]) is Some)
                ==> exists|k: int|
                {
                    &&& 0 <= k < ls.len()
                    &&& found is Some
                    &&& physical_size(#[trigger] ls[k]) == found
                    &&& forall|j: int| 0 <= j < k ==> physical_size(#[trigger] ls[j]) is None
                }
            &&& (forall|k: int| 0 <= k < ls.len() ==> physical_size(#[trigger] ls[k]) is None) && (
            exists|k: int| 0 <= k < ls.len() && plain_size(#[trigger] ls[k]) is Some) ==> exists|
                k: int,
            |
                {
                    &&& 0 <= k < ls.len()
                    &&& found is Some
                    &&& plain_size(#[trigger] ls[k]) == found
                    &&& forall|j: int| 0 <= j < k ==> plain_size(#[trigger] ls[j]) is None
                }
            &&& found is None <==> forall|k: int|
                0 <= k < ls.len() ==> physical_size(#[trigger] ls[k]) is None && plain_size(ls[k])
                    is None
        }),
{
    let ls = crate::text::lines(output);
    let a = |l: Seq<char>| physical_size(l);
    let b = |l: Seq<char>| plain_size(l);
    let k = lemma_first_size(ls, a);
    let m = lemma_first_size(ls, b);
    if first_size(ls, a) is Some {
        assert(physical_size(ls[k]) is Some);
        assert(forall|j: int| 0 <= j < k ==> a(#[trigger] ls[j]) is None);
        assert forall|j: int| 0 <= j < k implies physical_size(#[trigger] ls[j]) is None by {
            assert(a(ls[j]) is None);
        }
    } else {
        assert forall|j: int| 0 <= j < ls.len() implies physical_size(#[trigger] ls[j]) is None by {
            assert(a(ls[j]) is None);
        }
        if first_size(ls, b) is Some {
            assert(plain_size(ls[m]) is Some);
            assert forall|j: int| 0 <= j < m implies plain_size(#[trigger] ls[j]) is None by {
                assert(b(ls[j]) is None);
            }
        } else {
            assert forall|j: int| 0 <= j < ls.len() implies plain_size(#[trigger] ls[j]) is None by {
                assert(b(ls[j]) is None);
            }
        }
    }
}

/// A line with a serial number, a tab and a state lists the device exactly when the state is the
/// word `device`, with white space around it or without; the line may have white space around it. A
/// heading and a line without a tab list nothing.
pub proof fn law_tabbed_line(id: Seq<char>, before: Seq<char>, state: Seq<char>, after: Seq<char>)
    requires
        id.len() > 0 && !crate::text::is_white(id[0]) && !crate::text::is_white(id.last()),
        !id.contains('\t'),
        state.len() > 0 && !crate::text::is_white(state[0]) && !crate::text::is_white(state.last()),
        forall|j: int| 0 <= j < before.len() ==> crate::text::is_white(#[trigger] before[j]),
        forall|j: int| 0 <= j < after.len() ==> crate::text::is_white(#[trigger] after[j]),
        !crate::text::starts_with(id.push('\t') + before + state, "List of devices"@),
    ensures
        tabbed_device(id.push('\t') + before + state + after) == (if state == "device"@ {
            Some(id)
        } else {
            None
        }),
        tabbed_device(id) is None,
{
    let none = Seq::<char>::empty();
    let line = id.push('\t') + before + state;
    crate::text::law_trim(none, line, after);
    assert(line.last() == state.last());
    assert(line[0] == id[0]);
    assert(none + line + after =~= line + after);
    crate::text::lemma_index_of(line, '\t');
    let n = id.len() as int;
    assert(line[n] == '\t');
    let i = crate::text::index_of(line, '\t') as int;
    if i < n {
        assert(id[i] == '\t');
        assert(id.contains(id[i]));
    }
    assert(line.take(n) =~= id);
    assert(line.skip(n + 1) =~= before + state + none);
    crate::text::law_trim(before, state, none);
    crate::text::law_trim(none, id, none);
    assert(none + id + none =~= id);
    crate::text::lemma_index_of(id, '\t');
    let k = crate::text::index_of(id, '\t') as int;
    if k < n {
        assert(id.contains(id[k]));
    }
}

/// A device is listed for each line that lists one, in the order of the lines, and no other.
pub proof fn law_tabbed_devices_in_order(lines: Seq<Seq<char>>) -> (at: Seq<int>)
    ensures
        at.len() == tabbed_devices(lines).len(),
        forall|i: int, j: int| 0 <= i < j < at.len() ==> #[trigger] at[i] < #[trigger] at[j],
        forall|i: int|
            0 <= i < at.len() ==> 0 <= #[trigger] at[i] < lines.len() && tabbed_device(lines[at[i]])
                == Some(tabbed_devices(lines)[i]),
        forall|k: int|
            0 <= k < lines.len() && tabbed_device(#[trigger] lines[k]) is Some ==> at.contains(k),
    decreases lines.len(),
{
    if lines.len() == 0 {
        Seq::empty()
    } else {
        let init = lines.drop_last();
        let before = law_tabbed_devices_in_order(init);
        let last = lines.len() - 1;
        let found = tabbed_devices(lines);
        let at = if tabbed_device(lines.last()) is Some {
            before.push(last)
        } else {
            before
        };
        assert forall|i: int| 0 <= i < at.len() implies 0 <= #[trigger] at[i] < lines.len()
            && tabbed_device(lines[at[i]]) == Some(found[i]) by {
            if i < before.len() {
                assert(at[i] == before[i]);
                assert(tabbed_device(init[before[i]]) == Some(tabbed_devices(init)[i]));
            }
        }
        assert forall|k: int|
            0 <= k < lines.len() && tabbed_device(#[trigger] lines[k]) is Some implies at.contains(k) by {
            if k < last {
                assert(init[k] == lines[k]);
                let i = choose|i: int| 0 <= i < before.len() && before[i] == k;
                assert(at[i] == k);
            } else {
                assert(at[before.len() as int] == k);
            }
        }
        at
    }
}

/// A model that is known is shown as it is or behind the brand and a space, and as it is exactly
/// when the brand is unknown or stands at its front already. One that is not known gives way to the
/// manufacturer, then to the brand.
pub proof fn law_shown_model(
    brand: Seq<char>,
    manufacturer: Seq<char>,
    model: Seq<char>,
    brand_lower: Seq<char>,
    model_lower: Seq<char>,
)
    ensures
        ({
            let shown = shown_model(brand, manufacturer, model, brand_lower, model_lower);
            let known = model.len() > 0 && !crate::text::same_ignoring_ascii_case(
                model,
                "unknown"@,
            );
            let fronted = brand_lower.len() <= model_lower.len() && forall|j: int|
                0 <= j < brand_lower.len() ==> model_lower[j] == brand_lower[j];
            &&& known && brand.len() == 0 ==> shown == model
            &&& known && fronted ==> shown == model
            &&& known && brand.len() > 0 && !fronted ==> shown == brand.push(' ') + model
            &&& !known && manufacturer.len() > 0 ==> shown == manufacturer
            &&& !known && manufacturer.len() == 0 && brand.len() > 0 ==> shown == brand
            &&& !known && manufacturer.len() == 0 && brand.len() == 0 ==> shown == model
        }),
{
    reveal_strlit(" ");
    assert(brand + " "@ + model =~= brand.push(' ') + model);
    let n = brand_lower.len() as int;
    if n <= model_lower.len() {
        if forall|j: int| 0 <= j < n ==> model_lower[j] == brand_lower[j] {
            assert(model_lower.take(n) =~= brand_lower);
        }
        if model_lower.take(n) == brand_lower {
            assert forall|j: int| 0 <= j < n implies model_lower[j] == brand_lower[j] by {
                assert(model_lower.take(n)[j] == brand_lower[j]);
            }
        }
    }
}

/// The version is shown with the SDK level in brackets where both are known, else alone.
pub proof fn law_shown_version(version: Seq<char>, sdk: Seq<char>)
    ensures
        shown_version(version, Seq::empty()) == version,
        crate::text::same_ignoring_ascii_case(version, "unknown"@) ==> shown_version(version, sdk)
            == version,
        !crate::text::same_ignoring_ascii_case(version, "unknown"@) && sdk.len() > 0
            ==> shown_version(version, sdk) == version + seq![' ', '(', 'S', 'D', 'K', ' '] + sdk
            + seq![')'],
{
    reveal_strlit(" (SDK ");
    reveal_strlit(")");
    assert(" (SDK "@ =~= seq![' ', '(', 'S', 'D', 'K', ' ']);
    assert(")"@ =~= seq![')']);
}

/// Of entries for the same device the last counts, and only devices with an entry are known.
pub proof fn law_last_entry_counts(entries: Seq<(String, DeviceProfileSnapshot)>, id: Seq<char>)
    ensures
        entries_map(entries).dom().contains(id) <==> exists|k: int|
            0 <= k < entries.len() && (#[trigger] entries[k]).0@ == id,
        entries_map(entries).dom().contains(id) ==> exists|k: int|
            {
                &&& 0 <= k < entries.len()
                &&& (#[trigger] entries[k]).0@ == id
                &&& entries_map(entries)[id] == entries[k].1
                &&& forall|j: int| k < j < entries.len() ==> (#[trigger] entries[j]).0@ != id
            },
    decreases entries.len(),
{
    if entries.len() > 0 {
        let init = entries.drop_last();
        let last = entries.len() - 1;
        law_last_entry_counts(init, id);
        if entries[last].0@ == id {
            assert(entries_map(entries)[id] == entries[last].1);
        } else if entries_map(init).dom().contains(id) {
            let k = choose|k: int|
                {
                    &&& 0 <= k < init.len()
                    &&& (#[trigger] init[k]).0@ == id
                    &&& entries_map(init)[id] == init[k].1
                    &&& forall|j: int| k < j < init.len() ==> (#[trigger] init[j]).0@ != id
                };
            assert(entries[k] == init[k]);
            assert forall|j: int| k < j < entries.len() implies (#[trigger] entries[j]).0@ != id by {
                if j < last {
                    assert(init[j] == entries[j]);
                }
            }
        } else if exists|k: int| 0 <= k < entries.len() && (#[trigger] entries[k]).0@ == id {
            let k = choose|k: int| 0 <= k < entries.len() && (#[trigger] entries[k]).0@ == id;
            assert(init[k] == entries[k]);
        }
    }
}

/// What listing the devices gives: one for each line that lists one, in order, of which nothing is
/// known but the serial number.
pub proof fn law_list_devices(output: &str, r: Vec<crate::model::DeviceInfo>) -> (at: Seq<int>)
    requires
        call_ensures(list_devices, (output,), r),
    ensures
        at.len() == r@.len(),
        forall|i: int, j: int| 0 <= i < j < at.len() ==> #[trigger] at[i] < #[trigger] at[j],
        forall|i: int|
            0 <= i < at.len() ==> 0 <= #[trigger] at[i] < crate::text::lines(output@).len()
                && tabbed_device(crate::text::lines(output@)[at[i]]) == Some(r@[i].device_id@)
                && r@[i].model@ == "Unknown"@ && r@[i].android_version@ == "Unknown"@ && r@[i].width
                == 0 && r@[i].height == 0 && r@[i].ip is None,
        forall|k: int|
            0 <= k < crate::text::lines(output@).len() && tabbed_device(
                #[trigger] crate::text::lines(output@)[k],
            ) is Some ==> at.contains(k),
{
    let ls = crate::text::lines(output@);
    let at = law_tabbed_devices_in_order(ls);
    assert forall|i: int| 0 <= i < at.len() implies 0 <= #[trigger] at[i] < ls.len()
        && tabbed_device(ls[at[i]]) == Some(r@[i].device_id@) && r@[i].model@ == "Unknown"@
        && r@[i].android_version@ == "Unknown"@ && r@[i].width == 0 && r@[i].height == 0 && r@[i].ip
        is None by {
        assert(is_bare_device(r@[i], tabbed_devices(ls)[i]));
    }
    at
}

/// The spelling of a size, alone or behind the words for it, is what is read from it.
pub proof fn law_parse_wm_size(output: &str, w: u32, h: u32, r: Result<(u32, u32), ScrcpyError>)
    requires
        call_ensures(parse_wm_size, (output,), r),
        w > 0,
        h > 0,
        output@ == size_text(w, h) || output@ == "Physical size:"@ + seq![' '] + size_text(w, h),
    ensures
        r == Ok::<(u32, u32), ScrcpyError>((w, h)),
{
    let s = output@;
    let none = Seq::<char>::empty();
    let space = seq![' '];
    reveal_strlit("Physical size:");
    lemma_size_text(w, h);
    law_size_lines(w, h, none, none);
    law_size_lines(w, h, space, none);
    assert(none + size_text(w, h) + none =~= size_text(w, h));
    assert("Physical size:"@ + space + size_text(w, h) + none =~= "Physical size:"@ + space
        + size_text(w, h));
    assert(!s.contains('\n')) by {
        let t = size_text(w, h);
        let a = crate::text::decimal(w as nat);
        let b = crate::text::decimal(h as nat);
        lemma_number_text(w as nat);
        lemma_number_text(h as nat);
        assert forall|j: int| 0 <= j < t.len() implies t[j] != '\n' by {
            if j < a.len() {
                assert(t[j] == a[j]);
            } else if j > a.len() {
                assert(t[j] == b[j - a.len() - 1]);
            }
        }
        let front = "Physical size:"@ + space;
        assert forall|j: int| 0 <= j < s.len() implies s[j] != '\n' by {
            if s == t {
            } else if j >= front.len() {
                assert(s[j] == t[j - front.len()]);
            }
        }
    }
    crate::text::law_lines(s, none);
    let ls = crate::text::lines(s);
    assert(ls == seq![s]);
    law_physical_size_goes_first(s);
    assert(ls[0] == s);
    if physical_size(s) is Some {
        assert(physical_size(ls[0]) is Some);
    } else {
        assert(plain_size(ls[0]) is Some);
        assert forall|k: int| 0 <= k < ls.len() implies physical_size(#[trigger] ls[k]) is None by {}
    }
}

} // verus!
