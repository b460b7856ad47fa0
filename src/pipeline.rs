//! The analysis side of the pipeline: the raw and the postprocessed frequency
//! histories, and what one tick does to them.
use vstd::prelude::*;
use crate::history::{FrequencyHistory, HISTORY_CAPACITY};
use crate::pitch::{detect_pitch, is_strongest, pitch_at, MAX_SAMPLE_RATE};
use crate::smoothing::{judge_window, judged, SMOOTHING_WINDOW};

verus! {

/// The trailing smoothing window of a full history.
pub open spec fn trailing_window(raw: Seq<Option<u32>>) -> Seq<Option<u32>> {
    raw.subrange(raw.len() - SMOOTHING_WINDOW, raw.len() as int)
}

/// The postprocessed history after a tick whose raw history, newest entry
/// included, is `raw`: shifted by one, with the filter's judgment of the
/// newest raw entry as its newest entry.
pub open spec fn smoothed(raw: Seq<Option<u32>>, post: Seq<Option<u32>>) -> Seq<Option<u32>> {
    post.drop_first().push(judged(trailing_window(raw)))
}

/// The histories that the analysis loop writes and a display reads.
pub struct Vocalize {
    /// One raw estimate per tick.
    pub frequencies: FrequencyHistory,
    /// The raw estimates with outliers dropped.
    pub frequencies_postprocessed: FrequencyHistory,
}

impl Vocalize {
    /// Both histories filled with absent entries.
    pub fn new() -> (v: Self)
        ensures
            v.frequencies@ == Seq::new(HISTORY_CAPACITY as nat, |i: int| None::<u32>),
            v.frequencies_postprocessed@ == Seq::new(HISTORY_CAPACITY as nat, |i: int| None::<u32>),
    {
        Vocalize {
            frequencies: FrequencyHistory::new(),
            frequencies_postprocessed: FrequencyHistory::new(),
        }
    }

    /// A copy of the postprocessed history, oldest first.
    pub fn get_values(&self) -> (r: Vec<Option<u32>>)
        ensures
            r@ == self.frequencies_postprocessed@,
            r@.len() == HISTORY_CAPACITY,
    {
        self.frequencies_postprocessed.to_vec()
    }

    /// Shifts the postprocessed history by one and writes the filter's
    /// judgment of the newest raw entry into its newest slot.
    pub fn postprocess(&mut self)
        ensures
            final(self).frequencies@ == old(self).frequencies@,
            final(self).frequencies_postprocessed@ == smoothed(
                old(self).frequencies@,
                old(self).frequencies_postprocessed@,
            ),
    {
        proof {
            self.frequencies.lemma_full();
            self.frequencies_postprocessed.lemma_full();
        }
        let window = self.frequencies.trailing(SMOOTHING_WINDOW);
        let entry = judge_window(window.as_slice());
        self.frequencies_postprocessed.push(entry);
    }

    /// One tick: appends `entry` to the raw history, then postprocesses.
    pub fn record(&mut self, entry: Option<u32>)
        ensures
            final(self).frequencies@ == old(self).frequencies@.drop_first().push(entry),
            final(self).frequencies_postprocessed@ == smoothed(
                final(self).frequencies@,
                old(self).frequencies_postprocessed@,
            ),
    {
        self.frequencies.push(entry);
        self.postprocess();
    }

    /// One analysis tick. `spectrum` holds the magnitude keys of the
    /// transform of the newest window, or is `None` when too few samples were
    /// buffered; the raw entry is then absent.
    pub fn analyze(&mut self, spectrum: Option<&[u32]>, sample_rate: u32)
        requires
            spectrum matches Some(k) ==> k@.len() >= 2,
            1 <= sample_rate <= MAX_SAMPLE_RATE,
        ensures
            match spectrum {
                None => final(self).frequencies@.last() is None,
                Some(k) => forall|b: int|
                    is_strongest(k@, (k@.len() / 2) as int, b) ==> final(self).frequencies@.last()
                        == pitch_at(k@, sample_rate as int, b),
            },
            final(self).frequencies@.drop_last() == old(self).frequencies@.drop_first(),
            final(self).frequencies_postprocessed@ == smoothed(
                final(self).frequencies@,
                old(self).frequencies_postprocessed@,
            ),
    {
        let entry = match spectrum {
            None => None,
            Some(keys) => detect_pitch(keys, sample_rate),
        };
        self.record(entry);
        proof {
            assert(old(self).frequencies@.drop_first().push(entry).drop_last() =~= old(
                self,
            ).frequencies@.drop_first());
        }
    }
}

} // verus!
