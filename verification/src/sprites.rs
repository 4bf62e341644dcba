//! The sprite-state graph and the index groups used to pick expressions and
//! voices. The graph is an ordered sequence of nodes, each with up to four
//! optional outgoing edges; traversal never mutates it, only an entity's
//! current index. A missing edge silently skips the transition.

use vstd::prelude::*;

verus! {

/// One animation state, with its optional transition edges.
#[derive(Clone, Copy, PartialEq, Eq, Structural, Debug)]
pub struct ImageStateNode {
    pub eye_open: Option<usize>,
    pub eye_close: Option<usize>,
    pub mouth_open: Option<usize>,
    pub mouth_close: Option<usize>,
}

impl ImageStateNode {
    /// Every present edge points below `n`.
    pub open spec fn wf(self, n: nat) -> bool {
        &&& match self.eye_open {
            Some(j) => j < n,
            None => true,
        }
        &&& match self.eye_close {
            Some(j) => j < n,
            None => true,
        }
        &&& match self.mouth_open {
            Some(j) => j < n,
            None => true,
        }
        &&& match self.mouth_close {
            Some(j) => j < n,
            None => true,
        }
    }

    /// A node with no outgoing edges.
    pub fn new() -> (n: ImageStateNode)
        ensures
            n == (ImageStateNode {
                eye_open: None::<usize>,
                eye_close: None::<usize>,
                mouth_open: None::<usize>,
                mouth_close: None::<usize>,
            }),
    {
        ImageStateNode { eye_open: None, eye_close: None, mouth_open: None, mouth_close: None }
    }
}

/// The sprite-state graph, static once loaded.
pub struct SpriteAssets {
    pub states: Vec<ImageStateNode>,
    pub loaded: bool,
}

impl SpriteAssets {
    /// Every edge of every node points into the graph.
    pub open spec fn wf(self) -> bool {
        forall|i: int| 0 <= i < self.states@.len() ==> (#[trigger] self.states@[i]).wf(
            self.states@.len(),
        )
    }

    pub open spec fn len_spec(self) -> nat {
        self.states@.len()
    }

    pub fn len(&self) -> (n: usize)
        ensures
            n == self.len_spec(),
    {
        self.states.len()
    }

    /// Where the eye-open edge leads from `idx`; `idx` itself if absent.
    pub open spec fn eye_open_target(self, idx: int) -> int {
        match self.states@[idx].eye_open {
            Some(j) => j as int,
            None => idx,
        }
    }

    /// Where the eye-close edge leads from `idx`; `idx` itself if absent.
    pub open spec fn eye_close_target(self, idx: int) -> int {
        match self.states@[idx].eye_close {
            Some(j) => j as int,
            None => idx,
        }
    }

    /// Where the mouth-open edge leads from `idx`; `idx` itself if absent.
    pub open spec fn mouth_open_target(self, idx: int) -> int {
        match self.states@[idx].mouth_open {
            Some(j) => j as int,
            None => idx,
        }
    }

    /// Where the mouth-close edge leads from `idx`; `idx` itself if absent.
    pub open spec fn mouth_close_target(self, idx: int) -> int {
        match self.states@[idx].mouth_close {
            Some(j) => j as int,
            None => idx,
        }
    }

    pub fn step_eye_open(&self, idx: usize) -> (r: usize)
        requires
            self.wf(),
            idx < self.len_spec(),
        ensures
            r as int == self.eye_open_target(idx as int),
            r < self.len_spec(),
    {
        match self.states[idx].eye_open {
            Some(j) => j,
            None => idx,
        }
    }

    pub fn step_eye_close(&self, idx: usize) -> (r: usize)
        requires
            self.wf(),
            idx < self.len_spec(),
        ensures
            r as int == self.eye_close_target(idx as int),
            r < self.len_spec(),
    {
        match self.states[idx].eye_close {
            Some(j) => j,
            None => idx,
        }
    }

    pub fn step_mouth_open(&self, idx: usize) -> (r: usize)
        requires
            self.wf(),
            idx < self.len_spec(),
        ensures
            r as int == self.mouth_open_target(idx as int),
            r < self.len_spec(),
    {
        match self.states[idx].mouth_open {
            Some(j) => j,
            None => idx,
        }
    }

    pub fn step_mouth_close(&self, idx: usize) -> (r: usize)
        requires
            self.wf(),
            idx < self.len_spec(),
        ensures
            r as int == self.mouth_close_target(idx as int),
            r < self.len_spec(),
    {
        match self.states[idx].mouth_close {
            Some(j) => j,
            None => idx,
        }
    }
}

/// A node given as plain optional indices, for the standard layout below.
pub open spec fn node_of(
    eye_open: Option<usize>,
    eye_close: Option<usize>,
    mouth_open: Option<usize>,
    mouth_close: Option<usize>,
) -> ImageStateNode {
    ImageStateNode { eye_open, eye_close, mouth_open, mouth_close }
}

impl SpriteAssets {
    /// The standard sprite set: twenty states, eye open/close pairs wired
    /// both ways, and mouth open/close edges between talking and quiet
    /// variants of each expression.
    pub open spec fn standard_states() -> Seq<ImageStateNode> {
        seq![
            node_of(None, Some(1usize), None, Some(10usize)),
            node_of(Some(0usize), None, None, Some(11usize)),
            node_of(None, None, None, Some(3usize)),
            node_of(None, None, Some(2usize), None),
            node_of(None, None, None, Some(5usize)),
            node_of(None, None, Some(4usize), None),
            node_of(None, None, Some(7usize), None),
            node_of(None, None, None, Some(6usize)),
            node_of(None, None, None, Some(9usize)),
            node_of(None, None, Some(8usize), None),
            node_of(None, Some(11usize), Some(0usize), None),
            node_of(Some(10usize), None, Some(1usize), None),
            node_of(None, Some(13usize), None, Some(14usize)),
            node_of(Some(12usize), None, None, Some(15usize)),
            node_of(None, Some(15usize), Some(12usize), None),
            node_of(Some(14usize), None, Some(13usize), None),
            node_of(None, Some(17usize), None, Some(18usize)),
            node_of(Some(16usize), None, None, Some(19usize)),
            node_of(None, Some(19usize), Some(16usize), None),
            node_of(Some(18usize), None, Some(17usize), None),
        ]
    }

    /// Build the standard sprite-state graph.
    pub fn standard() -> (a: SpriteAssets)
        ensures
            a.states@ == Self::standard_states(),
            a.loaded,
            a.wf(),
            a.len_spec() == 20,
    {
        let states: Vec<ImageStateNode> = vec![
            ImageStateNode { eye_open: None, eye_close: Some(1), mouth_open: None, mouth_close: Some(10) },
            ImageStateNode { eye_open: Some(0), eye_close: None, mouth_open: None, mouth_close: Some(11) },
            ImageStateNode { eye_open: None, eye_close: None, mouth_open: None, mouth_close: Some(3) },
            ImageStateNode { eye_open: None, eye_close: None, mouth_open: Some(2), mouth_close: None },
            ImageStateNode { eye_open: None, eye_close: None, mouth_open: None, mouth_close: Some(5) },
            ImageStateNode { eye_open: None, eye_close: None, mouth_open: Some(4), mouth_close: None },
            ImageStateNode { eye_open: None, eye_close: None, mouth_open: Some(7), mouth_close: None },
            ImageStateNode { eye_open: None, eye_close: None, mouth_open: None, mouth_close: Some(6) },
            ImageStateNode { eye_open: None, eye_close: None, mouth_open: None, mouth_close: Some(9) },
            ImageStateNode { eye_open: None, eye_close: None, mouth_open: Some(8), mouth_close: None },
            ImageStateNode { eye_open: None, eye_close: Some(11), mouth_open: Some(0), mouth_close: None },
            ImageStateNode { eye_open: Some(10), eye_close: None, mouth_open: Some(1), mouth_close: None },
            ImageStateNode { eye_open: None, eye_close: Some(13), mouth_open: None, mouth_close: Some(14) },
            ImageStateNode { eye_open: Some(12), eye_close: None, mouth_open: None, mouth_close: Some(15) },
            ImageStateNode { eye_open: None, eye_close: Some(15), mouth_open: Some(12), mouth_close: None },
            ImageStateNode { eye_open: Some(14), eye_close: None, mouth_open: Some(13), mouth_close: None },
            ImageStateNode { eye_open: None, eye_close: Some(17), mouth_open: None, mouth_close: Some(18) },
            ImageStateNode { eye_open: Some(16), eye_close: None, mouth_open: None, mouth_close: Some(19) },
            ImageStateNode { eye_open: None, eye_close: Some(19), mouth_open: Some(16), mouth_close: None },
            ImageStateNode { eye_open: Some(18), eye_close: None, mouth_open: Some(17), mouth_close: None },
        ];
        let a = SpriteAssets { states, loaded: true };
        proof {
            assert(a.states@ =~= Self::standard_states());
            assert forall|i: int| 0 <= i < a.states@.len() implies (#[trigger] a.states@[i]).wf(
                a.states@.len(),
            ) by {
                assert(a.states@[i] == Self::standard_states()[i]);
            }
        }
        a
    }
}

/// Image-index groups for situations: sad expressions, idle variations and
/// the rarer second idle set.
pub struct ImageGroups {
    pub sad: Vec<usize>,
    pub idle: Vec<usize>,
    pub idle2: Vec<usize>,
}

/// All indices of a group point below `n`.
pub open spec fn group_wf(g: Seq<usize>, n: nat) -> bool {
    forall|i: int| 0 <= i < g.len() ==> (#[trigger] g[i]) < n
}

impl ImageGroups {
    pub open spec fn wf(self, n: nat) -> bool {
        &&& group_wf(self.sad@, n)
        &&& group_wf(self.idle@, n)
        &&& group_wf(self.idle2@, n)
    }
}

impl Default for ImageGroups {
    /// The grouping of the standard sprite set.
    fn default() -> (g: ImageGroups)
        ensures
            g.sad@ == seq![9usize, 10usize],
            g.idle@ == seq![1usize, 2usize, 3usize, 4usize, 5usize, 6usize, 7usize, 8usize],
            g.idle2@ == seq![11usize, 12usize, 13usize],
            g.wf(14),
    {
        let g = ImageGroups {
            sad: vec![9, 10],
            idle: vec![1, 2, 3, 4, 5, 6, 7, 8],
            idle2: vec![11, 12, 13],
        };
        proof {
            assert(g.sad@ =~= seq![9usize, 10usize]);
            assert(g.idle@ =~= seq![1usize, 2usize, 3usize, 4usize, 5usize, 6usize, 7usize, 8usize]);
            assert(g.idle2@ =~= seq![11usize, 12usize, 13usize]);
        }
        g
    }
}

/// Voice-index groups for situations.
pub struct VoiceGroups {
    pub drag: Vec<usize>,
    pub bounce: Vec<usize>,
    pub create: Vec<usize>,
    pub remove: Vec<usize>,
    pub idle: Vec<usize>,
    pub idle2: Vec<usize>,
}

impl VoiceGroups {
    pub open spec fn wf(self, n: nat) -> bool {
        &&& group_wf(self.drag@, n)
        &&& group_wf(self.bounce@, n)
        &&& group_wf(self.create@, n)
        &&& group_wf(self.remove@, n)
        &&& group_wf(self.idle@, n)
        &&& group_wf(self.idle2@, n)
    }
}

impl Default for VoiceGroups {
    /// The grouping of the standard voice set.
    fn default() -> (g: VoiceGroups)
        ensures
            g.drag@ == seq![0usize, 1usize, 2usize, 3usize],
            g.bounce@ == seq![16usize],
            g.create@ == seq![4usize],
            g.remove@ == seq![15usize, 16usize],
            g.idle@ == seq![5usize, 6usize, 7usize, 8usize, 9usize, 10usize, 11usize],
            g.idle2@ == seq![12usize, 14usize],
            g.wf(17),
    {
        let g = VoiceGroups {
            drag: vec![0, 1, 2, 3],
            bounce: vec![16],
            create: vec![4],
            remove: vec![15, 16],
            idle: vec![5, 6, 7, 8, 9, 10, 11],
            idle2: vec![12, 14],
        };
        proof {
            assert(g.drag@ =~= seq![0usize, 1usize, 2usize, 3usize]);
            assert(g.bounce@ =~= seq![16usize]);
            assert(g.create@ =~= seq![4usize]);
            assert(g.remove@ =~= seq![15usize, 16usize]);
            assert(g.idle@ =~= seq![5usize, 6usize, 7usize, 8usize, 9usize, 10usize, 11usize]);
            assert(g.idle2@ =~= seq![12usize, 14usize]);
        }
        g
    }
}

/// What the core knows of the loaded voice assets: how many there are.
/// The sounds themselves stay with the audio collaborator.
#[derive(Clone, Copy, PartialEq, Eq, Structural, Debug)]
pub struct AudioAssets {
    pub voice_count: usize,
    pub loaded: bool,
}

impl AudioAssets {
    /// The standard voice set of seventeen sounds.
    pub fn standard() -> (a: AudioAssets)
        ensures
            a.voice_count == 17,
            a.loaded,
    {
        AudioAssets { voice_count: 17, loaded: true }
    }

    /// Whether a voice index can be played.
    pub fn valid_voice(&self, i: usize) -> (r: bool)
        ensures
            r == (self.loaded && i < self.voice_count),
    {
        self.loaded && i < self.voice_count
    }
}

} // verus!
