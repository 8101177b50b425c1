use vstd::prelude::*;

verus! {

/// The sample rate every stream runs at.
pub const TARGET_SAMPLE_RATE: u32 = 48000;

/// A range of configurations that a device supports: a channel count and
/// the sample rates from `min_sample_rate` to `max_sample_rate`.
#[derive(Clone, Copy, PartialEq, Eq, Debug, Structural)]
pub struct SupportedRange {
    pub channels: u16,
    pub min_sample_rate: u32,
    pub max_sample_rate: u32,
}

/// The configuration chosen for a stream; the buffer size is the device's
/// default.
#[derive(Clone, Copy, PartialEq, Eq, Debug, Structural)]
pub struct StreamSettings {
    pub channels: u16,
    pub sample_rate: u32,
}

/// Whether a range offers the target sample rate.
pub open spec fn offers_target_rate(r: SupportedRange) -> bool {
    r.min_sample_rate <= TARGET_SAMPLE_RATE <= r.max_sample_rate
}

/// `i` is the first range in `ranges` that offers the target sample rate.
pub open spec fn is_first_offering(ranges: Seq<SupportedRange>, i: int) -> bool {
    &&& 0 <= i < ranges.len()
    &&& offers_target_rate(ranges[i])
    &&& forall|j: int| 0 <= j < i ==> !offers_target_rate(#[trigger] ranges[j])
}

/// The settings chosen from a device's default channel count and its
/// supported ranges: always the target sample rate, with the channel count
/// of the first range that offers it, or the default channel count where no
/// range does.
pub open spec fn chosen_settings(
    default_channels: u16,
    ranges: Seq<SupportedRange>,
    settings: StreamSettings,
) -> bool {
    &&& settings.sample_rate == TARGET_SAMPLE_RATE
    &&& {
        ||| exists|i: int| is_first_offering(ranges, i) && settings.channels == #[trigger] ranges[i].channels
        ||| (forall|j: int| 0 <= j < ranges.len() ==> !offers_target_rate(#[trigger] ranges[j]))
            && settings.channels == default_channels
    }
}

fn select_stream_settings(default_channels: u16, supported: &[SupportedRange]) -> (s: StreamSettings)
    ensures
        chosen_settings(default_channels, supported@, s),
{
    let mut i: usize = 0;
    while i < supported.len()
        invariant
            i <= supported@.len(),
            forall|j: int| 0 <= j < i ==> !offers_target_rate(#[trigger] supported@[j]),
        decreases supported@.len() - i,
    {
        let range = supported[i];
        if range.min_sample_rate <= TARGET_SAMPLE_RATE && TARGET_SAMPLE_RATE <= range.max_sample_rate {
            assert(is_first_offering(supported@, i as int));
            return StreamSettings { channels: range.channels, sample_rate: TARGET_SAMPLE_RATE };
        }
        i = i + 1;
    }
    StreamSettings { channels: default_channels, sample_rate: TARGET_SAMPLE_RATE }
}

/// Chooses the microphone stream's settings from the input device's default
/// channel count and its supported input ranges (none where they cannot be
/// listed).
pub fn resolve_input_config(default_channels: u16, supported: &[SupportedRange]) -> (s: StreamSettings)
    ensures
        chosen_settings(default_channels, supported@, s),
{
    select_stream_settings(default_channels, supported)
}

/// Chooses the playback (and loopback) stream's settings from the output
/// device's default channel count and its supported output ranges (none
/// where they cannot be listed).
pub fn resolve_output_config(default_channels: u16, supported: &[SupportedRange]) -> (s: StreamSettings)
    ensures
        chosen_settings(default_channels, supported@, s),
{
    select_stream_settings(default_channels, supported)
}

/// The choice is a function of its inputs: there is exactly one settings
/// value that `chosen_settings` accepts.
pub proof fn lemma_choice_is_unique(
    default_channels: u16,
    ranges: Seq<SupportedRange>,
    a: StreamSettings,
    b: StreamSettings,
)
    requires
        chosen_settings(default_channels, ranges, a),
        chosen_settings(default_channels, ranges, b),
    ensures
        a == b,
{
    if exists|i: int| is_first_offering(ranges, i) && a.channels == #[trigger] ranges[i].channels {
        let i = choose|i: int| is_first_offering(ranges, i) && a.channels == #[trigger] ranges[i].channels;
        assert(!(forall|j: int| 0 <= j < ranges.len() ==> !offers_target_rate(#[trigger] ranges[j])));
        let k = choose|k: int| is_first_offering(ranges, k) && b.channels == #[trigger] ranges[k].channels;
        if i < k {
            assert(!offers_target_rate(ranges[i]));
        } else if k < i {
            assert(!offers_target_rate(ranges[k]));
        }
    } else {
        if exists|k: int| is_first_offering(ranges, k) && b.channels == #[trigger] ranges[k].channels {
            let k = choose|k: int| is_first_offering(ranges, k) && b.channels == #[trigger] ranges[k].channels;
            assert(offers_target_rate(ranges[k]));
        }
    }
}

} // verus!
