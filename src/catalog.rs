//! The voice catalog: the voices of the synthesis backend with their styles,
//! assembled once from the backend's listings, and looked up by style id.

use vstd::prelude::*;

verus! {

broadcast use vstd::std_specs::vec::vec_clone_deep_view_proof;

/// The id under which the backend synthesizes in one style of one voice.
pub type SpeakerId = u32;

/// One speaking style of a voice.
pub struct SpeakerStyle {
    pub name: String,
    pub id: SpeakerId,
    pub icon: Vec<u8>,
    pub voice_samples: Vec<Vec<u8>>,
}

/// A voice: its name, its usage policy and its styles.
pub struct Speaker {
    pub name: String,
    pub policy: String,
    pub styles: Vec<SpeakerStyle>,
}

/// A style as the voice listing names it.
pub struct StyleEntry {
    pub name: String,
    pub id: SpeakerId,
}

/// A voice as the voice listing gives it.
pub struct SpeakerEntry {
    pub name: String,
    pub speaker_uuid: String,
    pub styles: Vec<StyleEntry>,
}

/// The extended metadata of one style.
pub struct StyleInfo {
    pub id: SpeakerId,
    pub icon: Vec<u8>,
    pub voice_samples: Vec<Vec<u8>>,
}

/// The extended metadata of one voice.
pub struct SpeakerInfo {
    pub policy: String,
    pub style_infos: Vec<StyleInfo>,
}

/// Index of the first metadata record at or after `k` with style id `id`.
pub open spec fn style_info_from(infos: Seq<StyleInfo>, id: SpeakerId, k: int) -> Option<int>
    decreases infos.len() - k,
{
    if k < 0 || k >= infos.len() {
        None
    } else if infos[k].id == id {
        Some(k)
    } else {
        style_info_from(infos, id, k + 1)
    }
}

/// Index of the first metadata record with style id `id`.
pub open spec fn style_info_index(infos: Seq<StyleInfo>, id: SpeakerId) -> Option<int> {
    style_info_from(infos, id, 0)
}

pub proof fn lemma_style_info_from(infos: Seq<StyleInfo>, id: SpeakerId, k: int)
    requires
        0 <= k,
    ensures
        style_info_from(infos, id, k) matches Some(j) ==> k <= j < infos.len() && infos[j].id
            == id,
    decreases infos.len() - k,
{
    if k < infos.len() && infos[k].id != id {
        lemma_style_info_from(infos, id, k + 1);
    }
}

/// The styles of a voice and its metadata records correspond one to one: as
/// many records as styles, every style has a record with its id, and no two
/// styles take the same record, so that every record is taken by exactly one
/// style.
pub open spec fn styles_paired(entry: SpeakerEntry, info: SpeakerInfo) -> bool {
    &&& entry.styles@.len() == info.style_infos@.len()
    &&& forall|k: int|
        0 <= k < entry.styles@.len() ==> #[trigger] style_info_index(
            info.style_infos@,
            entry.styles@[k].id,
        ) is Some
    &&& forall|a: int, b: int|
        0 <= a < b < entry.styles@.len() ==> #[trigger] style_info_index(
            info.style_infos@,
            entry.styles@[a].id,
        ) != #[trigger] style_info_index(info.style_infos@, entry.styles@[b].id)
}

/// `style` is what the listing entry `e` and its metadata make.
pub open spec fn style_assembled(style: SpeakerStyle, e: StyleEntry, infos: Seq<StyleInfo>) -> bool {
    match style_info_index(infos, e.id) {
        Some(k) => style.name@ == e.name@ && style.id == e.id && style.icon@ == infos[k].icon@
            && style.voice_samples.deep_view() == infos[k].voice_samples.deep_view(),
        None => false,
    }
}

/// `sp` is the voice that the listing entry and its metadata make.
pub open spec fn speaker_assembled(sp: Speaker, entry: SpeakerEntry, info: SpeakerInfo) -> bool {
    &&& sp.name@ == entry.name@
    &&& sp.policy@ == info.policy@
    &&& sp.styles@.len() == entry.styles@.len()
    &&& forall|k: int|
        0 <= k < sp.styles@.len() ==> #[trigger] style_assembled(
            sp.styles@[k],
            entry.styles@[k],
            info.style_infos@,
        )
}

fn find_style_info(infos: &Vec<StyleInfo>, id: SpeakerId) -> (r: Option<usize>)
    ensures
        match r {
            Some(k) => k < infos@.len() && style_info_index(infos@, id) == Some(k as int),
            None => style_info_index(infos@, id) is None,
        },
{
    let mut k: usize = 0;
    while k < infos.len()
        invariant
            k <= infos@.len(),
            style_info_index(infos@, id) == style_info_from(infos@, id, k as int),
        decreases infos@.len() - k,
    {
        if infos[k].id == id {
            return Some(k);
        }
        k = k + 1;
    }
    None
}

/// Whether the styles of a voice and its metadata records correspond one to
/// one.
pub fn styles_are_paired(entry: &SpeakerEntry, info: &SpeakerInfo) -> (r: bool)
    ensures
        r == styles_paired(*entry, *info),
{
    if entry.styles.len() != info.style_infos.len() {
        return false;
    }
    let mut k: usize = 0;
    while k < entry.styles.len()
        invariant
            k <= entry.styles@.len(),
            entry.styles@.len() == info.style_infos@.len(),
            forall|a: int, b: int|
                0 <= a < b < k ==> #[trigger] style_info_index(
                    info.style_infos@,
                    entry.styles@[a].id,
                ) != #[trigger] style_info_index(info.style_infos@, entry.styles@[b].id),
            forall|m: int|
                0 <= m < k ==> #[trigger] style_info_index(
                    info.style_infos@,
                    entry.styles@[m].id,
                ) is Some,
        decreases entry.styles@.len() - k,
    {
        let e = &entry.styles[k];
        match find_style_info(&info.style_infos, e.id) {
            Some(j) => {
                let mut m: usize = 0;
                while m < k
                    invariant
                        m <= k < entry.styles@.len(),
                        entry.styles@.len() == info.style_infos@.len(),
                        *e == entry.styles@[k as int],
                        style_info_index(info.style_infos@, e.id) == Some(j as int),
                        forall|a: int|
                            0 <= a < m ==> #[trigger] style_info_index(
                                info.style_infos@,
                                entry.styles@[a].id,
                            ) != style_info_index(info.style_infos@, e.id),
                    decreases k - m,
                {
                    if entry.styles[m].id == e.id {
                        assert(!styles_paired(*entry, *info)) by {
                            let a = m as int;
                            let b = k as int;
                            assert(0 <= a < b < entry.styles@.len());
                            assert(style_info_index(info.style_infos@, entry.styles@[a].id)
                                == style_info_index(info.style_infos@, entry.styles@[b].id));
                        }
                        return false;
                    }
                    proof {
                        lemma_style_info_from(info.style_infos@, entry.styles@[m as int].id, 0);
                        lemma_style_info_from(info.style_infos@, e.id, 0);
                    }
                    m = m + 1;
                }
            },
            None => {
                assert(!styles_paired(*entry, *info)) by {
                    assert(0 <= k < entry.styles@.len());
                }
                return false;
            },
        }
        k = k + 1;
    }
    true
}

/// Assembles one voice from its listing entry and its metadata; each style
/// takes its icon and samples from the metadata record with its id.
pub fn assemble_speaker(entry: &SpeakerEntry, info: &SpeakerInfo) -> (r: Speaker)
    requires
        styles_paired(*entry, *info),
    ensures
        speaker_assembled(r, *entry, *info),
{
    let mut styles: Vec<SpeakerStyle> = Vec::new();
    let mut k: usize = 0;
    while k < entry.styles.len()
        invariant
            k <= entry.styles@.len(),
            styles_paired(*entry, *info),
            styles@.len() == k,
            forall|m: int|
                0 <= m < k ==> #[trigger] style_assembled(
                    styles@[m],
                    entry.styles@[m],
                    info.style_infos@,
                ),
        decreases entry.styles@.len() - k,
    {
        let e = &entry.styles[k];
        assert(style_info_index(info.style_infos@, entry.styles@[k as int].id) is Some);
        match find_style_info(&info.style_infos, e.id) {
            Some(j) => {
                let si = &info.style_infos[j];
                let style = SpeakerStyle {
                    name: e.name.clone(),
                    id: e.id,
                    icon: si.icon.clone(),
                    voice_samples: si.voice_samples.clone(),
                };
                assert(style.icon@ =~= si.icon@);
                assert(style.voice_samples.deep_view() =~= si.voice_samples.deep_view());
                styles.push(style);
                assert(style_assembled(styles@[k as int], entry.styles@[k as int], info.style_infos@));
            },
            None => {
                assert(false);
            },
        }
        k = k + 1;
    }
    Speaker { name: entry.name.clone(), policy: info.policy.clone(), styles }
}

/// Every voice of the listing has its metadata, and the styles of each voice
/// correspond one to one with its metadata records.
pub open spec fn listings_paired(entries: Seq<SpeakerEntry>, infos: Seq<SpeakerInfo>) -> bool {
    entries.len() == infos.len() && forall|i: int|
        0 <= i < entries.len() ==> #[trigger] styles_paired(entries[i], infos[i])
}

/// Whether the listings can be assembled into a catalog; the catalog cannot
/// be loaded from listings that cannot.
pub fn listings_are_paired(entries: &Vec<SpeakerEntry>, infos: &Vec<SpeakerInfo>) -> (r: bool)
    ensures
        r == listings_paired(entries@, infos@),
{
    if entries.len() != infos.len() {
        return false;
    }
    let mut i: usize = 0;
    while i < entries.len()
        invariant
            entries@.len() == infos@.len(),
            i <= entries@.len(),
            forall|m: int| 0 <= m < i ==> #[trigger] styles_paired(entries@[m], infos@[m]),
        decreases entries@.len() - i,
    {
        if !styles_are_paired(&entries[i], &infos[i]) {
            return false;
        }
        i = i + 1;
    }
    true
}

/// Assembles the catalog: the `i`-th metadata record belongs to the `i`-th
/// voice of the listing.
pub fn assemble_catalog(entries: &Vec<SpeakerEntry>, infos: &Vec<SpeakerInfo>) -> (r: Vec<Speaker>)
    requires
        listings_paired(entries@, infos@),
    ensures
        r@.len() == entries@.len(),
        forall|i: int|
            0 <= i < r@.len() ==> #[trigger] speaker_assembled(r@[i], entries@[i], infos@[i]),
{
    let mut sps: Vec<Speaker> = Vec::new();
    let mut i: usize = 0;
    while i < entries.len()
        invariant
            listings_paired(entries@, infos@),
            i <= entries@.len(),
            sps@.len() == i,
            forall|m: int|
                0 <= m < i ==> #[trigger] speaker_assembled(sps@[m], entries@[m], infos@[m]),
        decreases entries@.len() - i,
    {
        assert(styles_paired(entries@[i as int], infos@[i as int]));
        sps.push(assemble_speaker(&entries[i], &infos[i]));
        i = i + 1;
    }
    sps
}

/// A located style, borrowed from the catalog.
pub struct SpeakerStyleView<'a> {
    pub speaker_i: usize,
    pub speaker_name: &'a String,
    pub speaker_policy: &'a String,
    pub style_i: usize,
    pub style_id: SpeakerId,
    pub style_icon: &'a Vec<u8>,
    pub style_name: &'a String,
    pub style_voice_samples: &'a Vec<Vec<u8>>,
}

/// The catalog holds style `id` at voice `i`, style `j`.
pub open spec fn has_style_at(sps: Seq<Speaker>, i: int, j: int, id: SpeakerId) -> bool {
    0 <= i < sps.len() && 0 <= j < sps[i].styles@.len() && sps[i].styles@[j].id == id
}

/// No style before voice `i`, style `j` in catalog order has id `id`.
pub open spec fn none_before(sps: Seq<Speaker>, i: int, j: int, id: SpeakerId) -> bool {
    forall|a: int, b: int|
        #![trigger has_style_at(sps, a, b, id)]
        (a < i || (a == i && b < j)) ==> !has_style_at(sps, a, b, id)
}

/// `v` shows voice `i`, style `j` of the catalog.
pub open spec fn shows(v: SpeakerStyleView, sps: Seq<Speaker>, i: int, j: int) -> bool {
    &&& v.speaker_i == i
    &&& v.style_i == j
    &&& *v.speaker_name == sps[i].name
    &&& *v.speaker_policy == sps[i].policy
    &&& v.style_id == sps[i].styles@[j].id
    &&& *v.style_name == sps[i].styles@[j].name
    &&& *v.style_icon == sps[i].styles@[j].icon
    &&& *v.style_voice_samples == sps[i].styles@[j].voice_samples
}

/// The first style in catalog order (voices in order, then their styles in
/// order) whose id is `id`.
pub fn find_style_by_id<'a>(sps: &'a Vec<Speaker>, id: SpeakerId) -> (r: Option<
    SpeakerStyleView<'a>,
>)
    ensures
        match r {
            Some(v) => has_style_at(sps@, v.speaker_i as int, v.style_i as int, id) && none_before(
                sps@,
                v.speaker_i as int,
                v.style_i as int,
                id,
            ) && shows(v, sps@, v.speaker_i as int, v.style_i as int),
            None => forall|a: int, b: int| !has_style_at(sps@, a, b, id),
        },
{
    let mut i: usize = 0;
    while i < sps.len()
        invariant
            i <= sps@.len(),
            none_before(sps@, i as int, 0, id),
        decreases sps@.len() - i,
    {
        let sp = &sps[i];
        let mut j: usize = 0;
        while j < sp.styles.len()
            invariant
                i < sps@.len(),
                *sp == sps@[i as int],
                j <= sp.styles@.len(),
                none_before(sps@, i as int, j as int, id),
            decreases sp.styles@.len() - j,
        {
            let style = &sp.styles[j];
            if style.id == id {
                return Some(
                    SpeakerStyleView {
                        speaker_i: i,
                        speaker_name: &sp.name,
                        speaker_policy: &sp.policy,
                        style_i: j,
                        style_id: style.id,
                        style_icon: &style.icon,
                        style_name: &style.name,
                        style_voice_samples: &style.voice_samples,
                    },
                );
            }
            assert(!has_style_at(sps@, i as int, j as int, id));
            j = j + 1;
        }
        assert forall|a: int, b: int|
            (a < i + 1 || (a == i + 1 && b < 0)) implies !#[trigger] has_style_at(sps@, a, b, id) by {
            if a == i && 0 <= b && b >= sp.styles@.len() {
                assert(!has_style_at(sps@, a, b, id));
            }
        }
        i = i + 1;
    }
    None
}

} // verus!
