//! The classifier: partitions a flat list of file paths into subtitles
//! and videos by extension, extracting an episode identifier for each
//! through its role's pattern. Files with an unrecognised extension, or
//! whose pattern yields no capture or an empty one, are dropped.

use vstd::prelude::*;

use crate::config::{Config, ConfigView};
use crate::paths::{base_name, extension_of, spec_base_name, spec_ext};
use crate::pattern::{extract_episode_id, first_capture};
use crate::text::{lower_of, lowercase};

verus! {

/// A file that passed classification: its extension matched a configured
/// set and its role's pattern yielded a non-empty first capture group.
pub struct ClassifiedFile {
    pub path: String,
    pub episode_id: String,
    pub extension: String,
}

/// The mathematical value of a `ClassifiedFile`.
pub struct FileView {
    pub path: Seq<char>,
    pub episode_id: Seq<char>,
    pub extension: Seq<char>,
}

impl View for ClassifiedFile {
    type V = FileView;

    open spec fn view(&self) -> FileView {
        FileView { path: self.path@, episode_id: self.episode_id@, extension: self.extension@ }
    }
}

/// The values of a sequence of classified files.
pub open spec fn file_views(files: Seq<ClassifiedFile>) -> Seq<FileView> {
    files.map_values(|f: ClassifiedFile| f@)
}

proof fn lemma_file_views_push(files: Seq<ClassifiedFile>, f: ClassifiedFile)
    ensures
        file_views(files.push(f)) == file_views(files).push(f@),
{
    assert(file_views(files.push(f)) =~= file_views(files).push(f@));
}

/// How one path is classified: as a subtitle (`true`) or a video
/// (`false`) carrying its identifier and lower-cased extension, or not at
/// all. The subtitle set is checked first, so it wins when the two
/// extension sets overlap.
pub open spec fn classify_one(cfg: ConfigView, path: Seq<char>) -> Option<(bool, FileView)> {
    let name = spec_base_name(path);
    match spec_ext(name) {
        None => None,
        Some(ext_raw) => {
            let ext = lower_of(ext_raw);
            if cfg.subtitle_extensions.contains(ext) {
                match first_capture(cfg.subtitle_pattern, name) {
                    Some(id) => if id.len() > 0 {
                        Some((true, FileView { path, episode_id: id, extension: ext }))
                    } else {
                        None
                    },
                    None => None,
                }
            } else if cfg.video_extensions.contains(ext) {
                match first_capture(cfg.video_pattern, name) {
                    Some(id) => if id.len() > 0 {
                        Some((false, FileView { path, episode_id: id, extension: ext }))
                    } else {
                        None
                    },
                    None => None,
                }
            } else {
                None
            }
        },
    }
}

/// The classification of a whole list: the subtitles and the videos, each
/// in input order.
pub open spec fn spec_classify(cfg: ConfigView, files: Seq<Seq<char>>) -> (Seq<FileView>, Seq<
    FileView,
>)
    decreases files.len(),
{
    if files.len() == 0 {
        (Seq::empty(), Seq::empty())
    } else {
        let r = spec_classify(cfg, files.drop_last());
        match classify_one(cfg, files.last()) {
            Some((true, f)) => (r.0.push(f), r.1),
            Some((false, f)) => (r.0, r.1.push(f)),
            None => r,
        }
    }
}

/// Whether one of the strings in `v` has the value `s`.
fn contains_string(v: &Vec<String>, s: &String) -> (r: bool)
    ensures
        r == v.deep_view().contains(s@),
{
    let mut i: usize = 0;
    while i < v.len()
        invariant
            i <= v.len(),
            forall|j: int| 0 <= j < i ==> v.deep_view()[j] != s@,
        decreases v.len() - i,
    {
        if v[i] == *s {
            assert(v.deep_view()[i as int] == s@);
            return true;
        }
        i = i + 1;
    }
    false
}

/// Partitions the given paths into classified subtitles and videos, in
/// input order, as `spec_classify` describes.
pub fn classify_files(cfg: &Config, files: &Vec<String>) -> (r: (
    Vec<ClassifiedFile>,
    Vec<ClassifiedFile>,
))
    requires
        cfg.wf(),
    ensures
        file_views(r.0@) == spec_classify(cfg@, files.deep_view()).0,
        file_views(r.1@) == spec_classify(cfg@, files.deep_view()).1,
{
    let mut subs: Vec<ClassifiedFile> = Vec::new();
    let mut vids: Vec<ClassifiedFile> = Vec::new();
    let mut i: usize = 0;
    proof {
        assert(files.deep_view().take(0) =~= Seq::<Seq<char>>::empty());
        assert(file_views(subs@) =~= Seq::<FileView>::empty());
        assert(file_views(vids@) =~= Seq::<FileView>::empty());
    }
    while i < files.len()
        invariant
            i <= files.len(),
            cfg.wf(),
            file_views(subs@) == spec_classify(cfg@, files.deep_view().take(i as int)).0,
            file_views(vids@) == spec_classify(cfg@, files.deep_view().take(i as int)).1,
        decreases files.len() - i,
    {
        let ghost subs0 = subs@;
        let ghost vids0 = vids@;
        let path: &String = &files[i];
        let name = base_name(path.as_str());
        match extension_of(name) {
            None => {},
            Some(ext_raw) => {
                let ext = lowercase(ext_raw);
                if contains_string(&cfg.subtitle_extensions, &ext) {
                    match extract_episode_id(cfg.subtitle_pattern.as_str(), name) {
                        Some(id) => {
                            if !id.as_str().is_empty() {
                                let f = ClassifiedFile {
                                    path: path.clone(),
                                    episode_id: id,
                                    extension: ext,
                                };
                                proof {
                                    lemma_file_views_push(subs@, f);
                                }
                                subs.push(f);
                            }
                        },
                        None => {},
                    }
                } else if contains_string(&cfg.video_extensions, &ext) {
                    match extract_episode_id(cfg.video_pattern.as_str(), name) {
                        Some(id) => {
                            if !id.as_str().is_empty() {
                                let f = ClassifiedFile {
                                    path: path.clone(),
                                    episode_id: id,
                                    extension: ext,
                                };
                                proof {
                                    lemma_file_views_push(vids@, f);
                                }
                                vids.push(f);
                            }
                        },
                        None => {},
                    }
                }
            },
        }
        proof {
            let dv = files.deep_view();
            assert(dv.take(i as int + 1).drop_last() =~= dv.take(i as int));
            assert(dv.take(i as int + 1).last() == dv[i as int]);
            assert(dv[i as int] == files@[i as int]@);
        }
        i = i + 1;
    }
    proof {
        assert(files.deep_view().take(files@.len() as int) =~= files.deep_view());
    }
    (subs, vids)
}

} // verus!
