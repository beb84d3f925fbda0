//! Shared data model: pod identity, stream identity, lifecycle commands, and
//! log events, together with their mathematical views.

use vstd::prelude::*;

verus! {

/// Mathematical view of a [`PodKey`].
#[verifier::ext_equal]
pub struct PodKeyView {
    pub namespace: Seq<char>,
    pub name: Seq<char>,
    pub uid: Seq<char>,
}

/// Identity of one pod. The uid distinguishes a replaced pod from its
/// namesake: two pods with the same namespace and name but different uids are
/// different keys.
#[derive(Debug, Clone, PartialEq, Eq, Hash)]
pub struct PodKey {
    pub namespace: String,
    pub name: String,
    pub uid: String,
}

impl View for PodKey {
    type V = PodKeyView;

    open spec fn view(&self) -> PodKeyView {
        PodKeyView { namespace: self.namespace@, name: self.name@, uid: self.uid@ }
    }
}

impl DeepView for PodKey {
    type V = PodKeyView;

    open spec fn deep_view(&self) -> PodKeyView {
        self.view()
    }
}

impl PodKey {
    /// Field-wise equality; agrees with view equality.
    pub fn key_eq(&self, other: &PodKey) -> (r: bool)
        ensures
            r == (self@ == other@),
    {
        let r = self.namespace == other.namespace && self.name == other.name
            && self.uid == other.uid;
        proof {
            if self@ == other@ {
                assert(self.namespace@ == other.namespace@);
                assert(self.name@ == other.name@);
                assert(self.uid@ == other.uid@);
            }
        }
        r
    }
}

/// Mathematical view of a [`StreamKey`].
#[verifier::ext_equal]
pub struct StreamKeyView {
    pub pod: PodKeyView,
    pub container: Seq<char>,
}

/// Identity of one follower: a pod plus one of its containers. At most one
/// follower exists per `StreamKey`.
#[derive(Debug, Clone, PartialEq, Eq, Hash)]
pub struct StreamKey {
    pub pod: PodKey,
    pub container: String,
}

impl View for StreamKey {
    type V = StreamKeyView;

    open spec fn view(&self) -> StreamKeyView {
        StreamKeyView { pod: self.pod@, container: self.container@ }
    }
}

impl DeepView for StreamKey {
    type V = StreamKeyView;

    open spec fn deep_view(&self) -> StreamKeyView {
        self.view()
    }
}

impl StreamKey {
    /// Field-wise equality; agrees with view equality.
    pub fn key_eq(&self, other: &StreamKey) -> (r: bool)
        ensures
            r == (self@ == other@),
    {
        let r = self.pod.key_eq(&other.pod) && self.container == other.container;
        proof {
            if self@ == other@ {
                assert(self.pod@ == other.pod@);
                assert(self.container@ == other.container@);
            }
        }
        r
    }
}

/// Mathematical view of a [`PodCommand`].
#[verifier::ext_equal]
pub enum PodCommandView {
    StartPod { pod: PodKeyView, containers: Seq<Seq<char>> },
    StopPod { pod: PodKeyView },
}

/// One lifecycle transition observed by the watcher. `StartPod` carries the
/// ordered container names to follow; `StopPod` ends every follower of the
/// pod.
#[derive(Debug, Clone, PartialEq, Eq)]
pub enum PodCommand {
    StartPod { pod: PodKey, containers: Vec<String> },
    StopPod { pod: PodKey },
}

impl DeepView for PodCommand {
    type V = PodCommandView;

    open spec fn deep_view(&self) -> PodCommandView {
        match self {
            PodCommand::StartPod { pod, containers } => PodCommandView::StartPod {
                pod: pod@,
                containers: containers.deep_view(),
            },
            PodCommand::StopPod { pod } => PodCommandView::StopPod { pod: pod@ },
        }
    }
}

/// Mathematical view of a [`LogEvent`].
#[verifier::ext_equal]
pub struct LogEventView {
    pub ts: Seq<char>,
    pub namespace: Seq<char>,
    pub pod: Seq<char>,
    pub container: Seq<char>,
    pub message: Seq<char>,
}

/// One log line, stamped with the wall-clock time at which it was read,
/// already rendered as an RFC 3339 text. The message excludes trailing
/// CR/LF.
#[derive(Debug, Clone, PartialEq, Eq)]
pub struct LogEvent {
    pub ts: String,
    pub namespace: String,
    pub pod: String,
    pub container: String,
    pub message: String,
}

impl View for LogEvent {
    type V = LogEventView;

    open spec fn view(&self) -> LogEventView {
        LogEventView {
            ts: self.ts@,
            namespace: self.namespace@,
            pod: self.pod@,
            container: self.container@,
            message: self.message@,
        }
    }
}

impl DeepView for LogEvent {
    type V = LogEventView;

    open spec fn deep_view(&self) -> LogEventView {
        self.view()
    }
}

} // verus!
