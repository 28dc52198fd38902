//! Smaller versions of media and drawn sound, made in the background.
use crate::copying::{copy_text, optional, views, Duplicate};
use crate::scalar::Scalar;
use std::collections::VecDeque;
use vstd::prelude::*;

verus! {

broadcast use crate::copying::group_views;

/// How far a proxy is.
#[derive(Clone, Copy, Debug, PartialEq, Eq, Structural)]
pub enum ProxyStatus {
    Missing,
    Pending,
    Ready,
    Failed,
}

/// How far a drawn sound is.
#[derive(Clone, Copy, Debug, PartialEq, Eq, Structural)]
pub enum WaveformStatus {
    Missing,
    Pending,
    Ready,
    Failed,
}

/// A copy of an optional list of numbers.
pub fn copy_peaks(peaks: &Option<Vec<Scalar>>) -> (copy: Option<Vec<Scalar>>)
    ensures
        optional(copy) == optional(*peaks),
{
    match peaks {
        Some(values) => Some(crate::copying::copy_list(values)),
        None => None,
    }
}

/// What is known of a proxy.
#[derive(Debug)]
pub struct ProxyEntry {
    pub key: String,
    pub status: ProxyStatus,
    pub path: String,
    pub error: Option<String>,
}

/// What an entry holds.
pub ghost struct ProxyEntryView {
    pub key: Seq<char>,
    pub status: ProxyStatus,
    pub path: Seq<char>,
    pub error: Option<Seq<char>>,
}

impl View for ProxyEntry {
    type V = ProxyEntryView;

    open spec fn view(&self) -> ProxyEntryView {
        ProxyEntryView {
            key: self.key@,
            status: self.status,
            path: self.path@,
            error: optional(self.error),
        }
    }
}

impl Clone for ProxyEntry {
    fn clone(&self) -> (copy: Self)
        ensures
            copy@ == self@,
    {
        ProxyEntry {
            key: self.key.clone(),
            status: self.status,
            path: self.path.clone(),
            error: copy_text(&self.error),
        }
    }
}

impl Duplicate for ProxyEntry {
    fn duplicate(&self) -> (copy: Self) {
        self.clone()
    }
}

/// A proxy that is to be made.
#[derive(Debug)]
pub struct ProxyJob {
    pub key: String,
    pub src_path: String,
    pub dst_path: String,
    pub max_dim: u32,
}

/// What a job holds.
pub ghost struct ProxyJobView {
    pub key: Seq<char>,
    pub src_path: Seq<char>,
    pub dst_path: Seq<char>,
    pub max_dim: u32,
}

impl View for ProxyJob {
    type V = ProxyJobView;

    open spec fn view(&self) -> ProxyJobView {
        ProxyJobView {
            key: self.key@,
            src_path: self.src_path@,
            dst_path: self.dst_path@,
            max_dim: self.max_dim,
        }
    }
}

impl Clone for ProxyJob {
    fn clone(&self) -> (copy: Self)
        ensures
            copy@ == self@,
    {
        ProxyJob {
            key: self.key.clone(),
            src_path: self.src_path.clone(),
            dst_path: self.dst_path.clone(),
            max_dim: self.max_dim,
        }
    }
}

impl Duplicate for ProxyJob {
    fn duplicate(&self) -> (copy: Self) {
        self.clone()
    }
}

/// The answer to the question for a proxy.
#[derive(Debug)]
pub struct ProxyLookup {
    pub path: Option<String>,
    pub status: ProxyStatus,
}

/// What an answer holds.
pub ghost struct ProxyLookupView {
    pub path: Option<Seq<char>>,
    pub status: ProxyStatus,
}

impl View for ProxyLookup {
    type V = ProxyLookupView;

    open spec fn view(&self) -> ProxyLookupView {
        ProxyLookupView {
            path: optional(self.path),
            status: self.status,
        }
    }
}

impl Clone for ProxyLookup {
    fn clone(&self) -> (copy: Self)
        ensures
            copy@ == self@,
    {
        ProxyLookup {
            path: copy_text(&self.path),
            status: self.status,
        }
    }
}

impl Duplicate for ProxyLookup {
    fn duplicate(&self) -> (copy: Self) {
        self.clone()
    }
}

/// What is known of a drawn sound.
#[derive(Debug)]
pub struct WaveformEntry {
    pub key: String,
    pub status: WaveformStatus,
    pub path: String,
    pub peaks: Option<Vec<Scalar>>,
    pub error: Option<String>,
}

/// What an entry holds.
pub ghost struct WaveformEntryView {
    pub key: Seq<char>,
    pub status: WaveformStatus,
    pub path: Seq<char>,
    pub peaks: Option<Seq<Scalar>>,
    pub error: Option<Seq<char>>,
}

impl View for WaveformEntry {
    type V = WaveformEntryView;

    open spec fn view(&self) -> WaveformEntryView {
        WaveformEntryView {
            key: self.key@,
            status: self.status,
            path: self.path@,
            peaks: optional(self.peaks),
            error: optional(self.error),
        }
    }
}

impl Clone for WaveformEntry {
    fn clone(&self) -> (copy: Self)
        ensures
            copy@ == self@,
    {
        WaveformEntry {
            key: self.key.clone(),
            status: self.status,
            path: self.path.clone(),
            peaks: copy_peaks(&self.peaks),
            error: copy_text(&self.error),
        }
    }
}

impl Duplicate for WaveformEntry {
    fn duplicate(&self) -> (copy: Self) {
        self.clone()
    }
}

/// A sound that is to be drawn.
#[derive(Debug)]
pub struct WaveformJob {
    pub key: String,
    pub src_path: String,
    pub dst_path: String,
    pub bucket_count: usize,
}

/// What a job holds.
pub ghost struct WaveformJobView {
    pub key: Seq<char>,
    pub src_path: Seq<char>,
    pub dst_path: Seq<char>,
    pub bucket_count: usize,
}

impl View for WaveformJob {
    type V = WaveformJobView;

    open spec fn view(&self) -> WaveformJobView {
        WaveformJobView {
            key: self.key@,
            src_path: self.src_path@,
            dst_path: self.dst_path@,
            bucket_count: self.bucket_count,
        }
    }
}

impl Clone for WaveformJob {
    fn clone(&self) -> (copy: Self)
        ensures
            copy@ == self@,
    {
        WaveformJob {
            key: self.key.clone(),
            src_path: self.src_path.clone(),
            dst_path: self.dst_path.clone(),
            bucket_count: self.bucket_count,
        }
    }
}

impl Duplicate for WaveformJob {
    fn duplicate(&self) -> (copy: Self) {
        self.clone()
    }
}

/// The answer to the question for a drawn sound.
#[derive(Debug)]
pub struct WaveformLookup {
    pub peaks: Option<Vec<Scalar>>,
    pub status: WaveformStatus,
}

/// What an answer holds.
pub ghost struct WaveformLookupView {
    pub peaks: Option<Seq<Scalar>>,
    pub status: WaveformStatus,
}

impl View for WaveformLookup {
    type V = WaveformLookupView;

    open spec fn view(&self) -> WaveformLookupView {
        WaveformLookupView {
            peaks: optional(self.peaks),
            status: self.status,
        }
    }
}

impl Clone for WaveformLookup {
    fn clone(&self) -> (copy: Self)
        ensures
            copy@ == self@,
    {
        WaveformLookup {
            peaks: copy_peaks(&self.peaks),
            status: self.status,
        }
    }
}

impl Duplicate for WaveformLookup {
    fn duplicate(&self) -> (copy: Self) {
        self.clone()
    }
}

/// The entries, no key twice, and the jobs that wait or are being done.
#[derive(Debug)]
pub struct ProxyCache {
    pub entries: Vec<ProxyEntry>,
    pub queue: VecDeque<ProxyJob>,
    pub active: Option<ProxyJob>,
}

/// What it holds.
#[verifier::ext_equal]
pub ghost struct ProxyCacheView {
    pub entries: Seq<ProxyEntryView>,
    pub queue: Seq<ProxyJobView>,
    pub active: Option<ProxyJobView>,
}

impl View for ProxyCache {
    type V = ProxyCacheView;

    open spec fn view(&self) -> ProxyCacheView {
        ProxyCacheView {
            entries: views(self.entries@),
            queue: views(self.queue@),
            active: optional(self.active),
        }
    }
}

impl ProxyCache {
    /// Without entries and jobs.
    pub fn new() -> (cache: Self)
        ensures
            cache@ == ProxyCacheView::empty(),
    {
        ProxyCache { entries: Vec::new(), queue: VecDeque::new(), active: None }
    }
}

impl ProxyCacheView {
    /// Without entries and jobs.
    pub open spec fn empty() -> ProxyCacheView {
        ProxyCacheView { entries: Seq::empty(), queue: Seq::empty(), active: None }
    }
}

/// The entries, no key twice, and the jobs that wait or are being done.
#[derive(Debug)]
pub struct WaveformCache {
    pub entries: Vec<WaveformEntry>,
    pub queue: VecDeque<WaveformJob>,
    pub active: Option<WaveformJob>,
}

/// What it holds.
#[verifier::ext_equal]
pub ghost struct WaveformCacheView {
    pub entries: Seq<WaveformEntryView>,
    pub queue: Seq<WaveformJobView>,
    pub active: Option<WaveformJobView>,
}

impl View for WaveformCache {
    type V = WaveformCacheView;

    open spec fn view(&self) -> WaveformCacheView {
        WaveformCacheView {
            entries: views(self.entries@),
            queue: views(self.queue@),
            active: optional(self.active),
        }
    }
}

impl WaveformCache {
    /// Without entries and jobs.
    pub fn new() -> (cache: Self)
        ensures
            cache@ == WaveformCacheView::empty(),
    {
        WaveformCache { entries: Vec::new(), queue: VecDeque::new(), active: None }
    }
}

impl WaveformCacheView {
    /// Without entries and jobs.
    pub open spec fn empty() -> WaveformCacheView {
        WaveformCacheView { entries: Seq::empty(), queue: Seq::empty(), active: None }
    }
}

} // verus!
