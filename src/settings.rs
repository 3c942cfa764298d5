//! Lookups in the per-user voice settings and in the registry of the channel
//! that is being read aloud in each guild.

use vstd::prelude::*;
use std::collections::HashMap;
use crate::catalog::SpeakerId;

verus! {

broadcast use vstd::std_specs::hash::group_hash_axioms;

/// The voice of a user who has chosen none.
pub const DEFAULT_SPEAKER: SpeakerId = 0;

/// The voice that `user` chose, else the default voice.
pub fn get_speaker_id(voice_settings: &HashMap<u64, SpeakerId>, user: u64) -> (r: SpeakerId)
    ensures
        r == (if voice_settings@.contains_key(user) {
            voice_settings@[user]
        } else {
            DEFAULT_SPEAKER
        }),
{
    match voice_settings.get(&user) {
        Some(s) => *s,
        None => DEFAULT_SPEAKER,
    }
}

/// Records the voice that `user` chose.
pub fn store_speaker_id(voice_settings: &mut HashMap<u64, SpeakerId>, user: u64, speaker_id: SpeakerId)
    ensures
        final(voice_settings)@ == old(voice_settings)@.insert(user, speaker_id),
{
    voice_settings.insert(user, speaker_id);
}

/// The channel that is read aloud in the guild of a message, if the message
/// comes from a guild and one is registered there.
pub fn get_instance(instances: &HashMap<u64, u64>, guild_id: Option<u64>) -> (r: Option<u64>)
    ensures
        r == (match guild_id {
            Some(g) => if instances@.contains_key(g) { Some(instances@[g]) } else { None },
            None => None,
        }),
{
    match guild_id {
        Some(g) => match instances.get(&g) {
            Some(c) => Some(*c),
            None => None,
        },
        None => None,
    }
}

/// Registers `channel_id` as the channel read aloud in `guild_id`.
pub fn store_instance(instances: &mut HashMap<u64, u64>, guild_id: u64, channel_id: u64)
    ensures
        final(instances)@ == old(instances)@.insert(guild_id, channel_id),
{
    instances.insert(guild_id, channel_id);
}

/// Stops reading aloud in `guild_id`.
pub fn destroy_instance(instances: &mut HashMap<u64, u64>, guild_id: u64)
    ensures
        final(instances)@ == old(instances)@.remove(guild_id),
{
    instances.remove(&guild_id);
}

} // verus!
