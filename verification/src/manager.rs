//! The timelines of all open videos, one per video, keyed by the video's
//! UUID bits.

use std::collections::BTreeMap;
use vstd::prelude::*;
use crate::domain::VideoId;
use crate::timeline::Timeline;

verus! {

broadcast use {vstd::std_specs::btree::group_btree_axioms, vstd::laws_cmp::group_laws_cmp};

/// Timelines of several videos, keyed by video.
pub struct TimelineManager {
    timelines: BTreeMap<u128, Timeline>,
}

impl View for TimelineManager {
    type V = Map<u128, Timeline>;

    /// The timelines by the UUID bits of their videos.
    closed spec fn view(&self) -> Map<u128, Timeline> {
        self.timelines@
    }
}

impl TimelineManager {
    /// A manager with no timelines.
    pub fn new() -> (r: Self)
        ensures
            r@ == Map::<u128, Timeline>::empty(),
    {
        TimelineManager { timelines: BTreeMap::new() }
    }

    /// Start an empty timeline for `video_id`, replacing the one it had.
    pub fn create_timeline(&mut self, video_id: VideoId, duration_ms: u64)
        ensures
            final(self)@.dom() == old(self)@.dom().insert(video_id.uuid),
            final(self)@[video_id.uuid].entries() == Seq::<crate::domain::TimelineSegment>::empty(),
            final(self)@[video_id.uuid].spec_duration() == duration_ms,
            final(self)@[video_id.uuid].spec_video_id() == video_id,
            forall|k: u128| k != video_id.uuid ==> #[trigger] final(self)@.get(k) == old(self)@.get(k),
    {
        let t = Timeline::new(video_id, duration_ms);
        self.timelines.insert(video_id.uuid, t);
    }

    /// The timeline of `video_id`, if it has one.
    pub fn get_timeline(&self, video_id: VideoId) -> (r: Option<&Timeline>)
        ensures
            r == (if self@.dom().contains(video_id.uuid) {
                Some(&self@[video_id.uuid])
            } else {
                None
            }),
    {
        self.timelines.get(&video_id.uuid)
    }

    /// Drop the timeline of `video_id`.
    pub fn remove_timeline(&mut self, video_id: VideoId)
        ensures
            final(self)@ == old(self)@.remove(video_id.uuid),
    {
        self.timelines.remove(&video_id.uuid);
    }
}

impl Default for TimelineManager {
    fn default() -> (r: Self)
        ensures
            r@ == Map::<u128, Timeline>::empty(),
    {
        TimelineManager::new()
    }
}

} // verus!
