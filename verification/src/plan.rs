//! The matcher and planner: an identifier-to-video index in which the
//! last video with a given identifier wins, and a rename operation for
//! every subtitle whose matched video gives it a new name.

use vstd::prelude::*;

use crate::classify::{file_views, ClassifiedFile, FileView};
use crate::paths::{
    base_name, dir_prefix, spec_base_name, spec_dir_prefix, spec_stem, stem_of,
};

verus! {

/// One proposed rename: the subtitle at `from` is to take the name `to`,
/// built from its matched video's stem and its own extension.
pub struct RenameOperation {
    pub from: String,
    pub to: String,
    pub episode_id: String,
}

/// The mathematical value of a `RenameOperation`.
pub struct RenameView {
    pub from: Seq<char>,
    pub to: Seq<char>,
    pub episode_id: Seq<char>,
}

impl View for RenameOperation {
    type V = RenameView;

    open spec fn view(&self) -> RenameView {
        RenameView { from: self.from@, to: self.to@, episode_id: self.episode_id@ }
    }
}

/// The values of a sequence of rename operations.
pub open spec fn op_views(ops: Seq<RenameOperation>) -> Seq<RenameView> {
    ops.map_values(|o: RenameOperation| o@)
}

proof fn lemma_op_views_push(ops: Seq<RenameOperation>, o: RenameOperation)
    ensures
        op_views(ops.push(o)) == op_views(ops).push(o@),
{
    assert(op_views(ops.push(o)) =~= op_views(ops).push(o@));
}

proof fn lemma_file_views_push(files: Seq<ClassifiedFile>, f: ClassifiedFile)
    ensures
        file_views(files.push(f)) == file_views(files).push(f@),
{
    assert(file_views(files.push(f)) =~= file_views(files).push(f@));
}

/// The video that an identifier maps to: the last one in input order
/// that carries it, or nothing when none does.
pub open spec fn find_video(videos: Seq<FileView>, id: Seq<char>) -> Option<FileView>
    decreases videos.len(),
{
    if videos.len() == 0 {
        None
    } else if videos.last().episode_id == id {
        Some(videos.last())
    } else {
        find_video(videos.drop_last(), id)
    }
}

/// The planned destination: the subtitle's own directory, the video's
/// base name without its extension, a dot, and the subtitle's extension.
pub open spec fn spec_destination(
    sub_path: Seq<char>,
    video_path: Seq<char>,
    sub_ext: Seq<char>,
) -> Seq<char> {
    spec_dir_prefix(sub_path) + spec_stem(spec_base_name(video_path)) + seq!['.'] + sub_ext
}

/// What the planner does with one subtitle: an operation when a video
/// shares its identifier and the destination differs from the source,
/// nothing when the destination equals the source, and a report that it
/// is unmatched when no video shares its identifier.
pub enum PlanOutcome {
    Op(RenameView),
    NoChange,
    Unmatched,
}

/// The planner's decision for one subtitle against the whole video list.
pub open spec fn plan_one(sub: FileView, videos: Seq<FileView>) -> PlanOutcome {
    match find_video(videos, sub.episode_id) {
        None => PlanOutcome::Unmatched,
        Some(video) => {
            let dest = spec_destination(sub.path, video.path, sub.extension);
            if dest == sub.path {
                PlanOutcome::NoChange
            } else {
                PlanOutcome::Op(RenameView { from: sub.path, to: dest, episode_id: sub.episode_id })
            }
        },
    }
}

/// The whole plan: operations in subtitle-input order, and the subtitles
/// that no video matched, also in input order.
pub open spec fn spec_plan(subs: Seq<FileView>, videos: Seq<FileView>) -> (Seq<RenameView>, Seq<
    FileView,
>)
    decreases subs.len(),
{
    if subs.len() == 0 {
        (Seq::empty(), Seq::empty())
    } else {
        let r = spec_plan(subs.drop_last(), videos);
        match plan_one(subs.last(), videos) {
            PlanOutcome::Op(o) => (r.0.push(o), r.1),
            PlanOutcome::NoChange => r,
            PlanOutcome::Unmatched => (r.0, r.1.push(subs.last())),
        }
    }
}

/// Looks an identifier up among the videos: the last video in input
/// order with that identifier, per `find_video`.
fn lookup_video<'a>(videos: &'a Vec<ClassifiedFile>, id: &String) -> (r: Option<
    &'a ClassifiedFile,
>)
    ensures
        r matches Some(v) ==> find_video(file_views(videos@), id@) == Some(v@),
        r is None <==> find_video(file_views(videos@), id@) is None,
{
    let mut i: usize = videos.len();
    proof {
        assert(file_views(videos@).take(i as int) =~= file_views(videos@));
    }
    while i > 0
        invariant
            i <= videos.len(),
            find_video(file_views(videos@), id@) == find_video(
                file_views(videos@).take(i as int),
                id@,
            ),
        decreases i,
    {
        proof {
            let vs = file_views(videos@);
            assert(vs.take(i as int).drop_last() =~= vs.take(i as int - 1));
            assert(vs.take(i as int).last() == vs[i as int - 1]);
            assert(vs[i as int - 1] == videos@[i as int - 1]@);
        }
        if videos[i - 1].episode_id == *id {
            return Some(&videos[i - 1]);
        }
        i = i - 1;
    }
    proof {
        assert(file_views(videos@).take(0) =~= Seq::<FileView>::empty());
    }
    None
}

/// Builds the planned destination path, per `spec_destination`.
pub fn rename_destination(sub_path: &str, video_path: &str, sub_ext: &str) -> (r: String)
    ensures
        r@ == spec_destination(sub_path@, video_path@, sub_ext@),
{
    let dir = dir_prefix(sub_path);
    let video_stem = stem_of(base_name(video_path));
    let mut out = String::from_str(dir);
    out.append(video_stem);
    out.append(".");
    out.append(sub_ext);
    proof {
        reveal_strlit(".");
        assert("."@ =~= seq!['.']);
        assert(out@ =~= spec_destination(sub_path@, video_path@, sub_ext@));
    }
    out
}

/// Copies one classified file, field by field.
fn clone_file(f: &ClassifiedFile) -> (r: ClassifiedFile)
    ensures
        r@ == f@,
{
    ClassifiedFile {
        path: f.path.clone(),
        episode_id: f.episode_id.clone(),
        extension: f.extension.clone(),
    }
}

/// Plans the renames for the classified subtitles against the classified
/// videos, per `spec_plan`: the operations in subtitle-input order, and
/// the unmatched subtitles.
pub fn plan_renames(subtitles: &Vec<ClassifiedFile>, videos: &Vec<ClassifiedFile>) -> (r: (
    Vec<RenameOperation>,
    Vec<ClassifiedFile>,
))
    ensures
        op_views(r.0@) == spec_plan(file_views(subtitles@), file_views(videos@)).0,
        file_views(r.1@) == spec_plan(file_views(subtitles@), file_views(videos@)).1,
{
    let mut ops: Vec<RenameOperation> = Vec::new();
    let mut unmatched: Vec<ClassifiedFile> = Vec::new();
    let mut i: usize = 0;
    proof {
        assert(file_views(subtitles@).take(0) =~= Seq::<FileView>::empty());
        assert(op_views(ops@) =~= Seq::<RenameView>::empty());
        assert(file_views(unmatched@) =~= Seq::<FileView>::empty());
    }
    while i < subtitles.len()
        invariant
            i <= subtitles.len(),
            op_views(ops@) == spec_plan(
                file_views(subtitles@).take(i as int),
                file_views(videos@),
            ).0,
            file_views(unmatched@) == spec_plan(
                file_views(subtitles@).take(i as int),
                file_views(videos@),
            ).1,
        decreases subtitles.len() - i,
    {
        let sub = &subtitles[i];
        match lookup_video(videos, &sub.episode_id) {
            None => {
                proof {
                    lemma_file_views_push(unmatched@, *sub);
                }
                let copy = clone_file(sub);
                unmatched.push(copy);
            },
            Some(video) => {
                let dest = rename_destination(
                    sub.path.as_str(),
                    video.path.as_str(),
                    sub.extension.as_str(),
                );
                if !(dest == sub.path) {
                    let op = RenameOperation {
                        from: sub.path.clone(),
                        to: dest,
                        episode_id: sub.episode_id.clone(),
                    };
                    proof {
                        lemma_op_views_push(ops@, op);
                    }
                    ops.push(op);
                }
            },
        }
        proof {
            let ss = file_views(subtitles@);
            assert(ss.take(i as int + 1).drop_last() =~= ss.take(i as int));
            assert(ss.take(i as int + 1).last() == ss[i as int]);
            assert(ss[i as int] == subtitles@[i as int]@);
        }
        i = i + 1;
    }
    proof {
        assert(file_views(subtitles@).take(subtitles@.len() as int) =~= file_views(subtitles@));
    }
    (ops, unmatched)
}

} // verus!
