//! Validated run configuration: the two identifier patterns (with
//! fallback when only one is supplied), the two extension sets, the root
//! directory and the scalar flags.

use vstd::prelude::*;

use crate::pattern::{pattern_compiles, regex_compiles};
use crate::text::{parse_extensions, spec_parse_extensions};

verus! {

/// The role a pattern is used for: extracting identifiers from subtitle
/// file names or from video file names.
#[derive(Clone, Copy, PartialEq, Eq, Structural, Debug)]
pub enum PatternRole {
    Subtitle,
    Video,
}

/// Why a configuration could not be built.
#[derive(Debug)]
pub enum ConfigError {
    /// Neither identifier pattern was supplied.
    MissingPattern,
    /// The effective pattern for this role is not a valid regular
    /// expression.
    InvalidPattern { role: PatternRole, pattern: String },
    /// The root directory does not exist.
    DirectoryNotFound { path: String },
}

/// The mathematical value of a `ConfigError`.
pub enum ErrorView {
    MissingPattern,
    InvalidPattern { role: PatternRole, pattern: Seq<char> },
    DirectoryNotFound { path: Seq<char> },
}

impl View for ConfigError {
    type V = ErrorView;

    open spec fn view(&self) -> ErrorView {
        match self {
            ConfigError::MissingPattern => ErrorView::MissingPattern,
            ConfigError::InvalidPattern { role, pattern } => ErrorView::InvalidPattern {
                role: *role,
                pattern: pattern@,
            },
            ConfigError::DirectoryNotFound { path } => ErrorView::DirectoryNotFound {
                path: path@,
            },
        }
    }
}

/// A validated configuration: both patterns compile, and the extension
/// lists are already parsed into tokens.
pub struct Config {
    pub subtitle_pattern: String,
    pub video_pattern: String,
    pub subtitle_extensions: Vec<String>,
    pub video_extensions: Vec<String>,
    pub root: String,
    pub recursive: bool,
    pub dry_run: bool,
    pub quiet: bool,
    pub verbose: bool,
}

/// The mathematical value of a `Config`.
pub struct ConfigView {
    pub subtitle_pattern: Seq<char>,
    pub video_pattern: Seq<char>,
    pub subtitle_extensions: Seq<Seq<char>>,
    pub video_extensions: Seq<Seq<char>>,
    pub root: Seq<char>,
    pub recursive: bool,
    pub dry_run: bool,
    pub quiet: bool,
    pub verbose: bool,
}

impl View for Config {
    type V = ConfigView;

    open spec fn view(&self) -> ConfigView {
        ConfigView {
            subtitle_pattern: self.subtitle_pattern@,
            video_pattern: self.video_pattern@,
            subtitle_extensions: self.subtitle_extensions.deep_view(),
            video_extensions: self.video_extensions.deep_view(),
            root: self.root@,
            recursive: self.recursive,
            dry_run: self.dry_run,
            quiet: self.quiet,
            verbose: self.verbose,
        }
    }
}

impl Config {
    /// Both effective patterns are valid regular expressions; every
    /// constructed configuration has this.
    pub open spec fn wf(self) -> bool {
        pattern_compiles(self.subtitle_pattern@) && pattern_compiles(self.video_pattern@)
    }
}

/// The pattern a role ends up with: its own when supplied, the other
/// role's otherwise.
pub open spec fn effective_pattern(own: Option<Seq<char>>, other: Option<Seq<char>>) -> Seq<char>
    recommends
        own is Some || other is Some,
{
    match own {
        Some(p) => p,
        None => match other {
            Some(p) => p,
            None => Seq::empty(),
        },
    }
}

/// What building a configuration gives for every input: the exact error
/// when validation fails, the exact field values when it succeeds.
pub open spec fn spec_build_config(
    subtitle_pattern: Option<Seq<char>>,
    video_pattern: Option<Seq<char>>,
    subtitle_ext: Seq<char>,
    video_ext: Seq<char>,
    root: Seq<char>,
    root_exists: bool,
    recursive: bool,
    dry_run: bool,
    quiet: bool,
    verbose: bool,
) -> Result<ConfigView, ErrorView> {
    if subtitle_pattern is None && video_pattern is None {
        Err(ErrorView::MissingPattern)
    } else {
        let sub_pat = effective_pattern(subtitle_pattern, video_pattern);
        let vid_pat = effective_pattern(video_pattern, subtitle_pattern);
        if !pattern_compiles(sub_pat) {
            Err(ErrorView::InvalidPattern { role: PatternRole::Subtitle, pattern: sub_pat })
        } else if !pattern_compiles(vid_pat) {
            Err(ErrorView::InvalidPattern { role: PatternRole::Video, pattern: vid_pat })
        } else if !root_exists {
            Err(ErrorView::DirectoryNotFound { path: root })
        } else {
            Ok(
                ConfigView {
                    subtitle_pattern: sub_pat,
                    video_pattern: vid_pat,
                    subtitle_extensions: spec_parse_extensions(subtitle_ext),
                    video_extensions: spec_parse_extensions(video_ext),
                    root,
                    recursive,
                    dry_run,
                    quiet,
                    verbose,
                },
            )
        }
    }
}

impl Config {
    /// Validates raw settings and builds a configuration, or fails with
    /// the first applicable error: no pattern at all, an effective
    /// pattern that does not compile (subtitle role checked first), or a
    /// root directory that the caller found missing.
    pub fn new(
        subtitle_pattern: Option<String>,
        video_pattern: Option<String>,
        subtitle_ext: &str,
        video_ext: &str,
        root: String,
        root_exists: bool,
        recursive: bool,
        dry_run: bool,
        quiet: bool,
        verbose: bool,
    ) -> (r: Result<Config, ConfigError>)
        ensures
            ({
                let outcome = spec_build_config(
                    subtitle_pattern.deep_view(),
                    video_pattern.deep_view(),
                    subtitle_ext@,
                    video_ext@,
                    root@,
                    root_exists,
                    recursive,
                    dry_run,
                    quiet,
                    verbose,
                );
                match r {
                    Ok(c) => outcome == Ok::<ConfigView, ErrorView>(c@) && c.wf(),
                    Err(e) => outcome == Err::<ConfigView, ErrorView>(e@),
                }
            }),
    {
        let (sub_p, vid_p) = match (subtitle_pattern, video_pattern) {
            (None, None) => {
                return Err(ConfigError::MissingPattern);
            },
            (Some(s), None) => {
                let v = s.clone();
                (s, v)
            },
            (None, Some(v)) => {
                let s = v.clone();
                (s, v)
            },
            (Some(s), Some(v)) => (s, v),
        };
        if !regex_compiles(sub_p.as_str()) {
            return Err(ConfigError::InvalidPattern { role: PatternRole::Subtitle, pattern: sub_p });
        }
        if !regex_compiles(vid_p.as_str()) {
            return Err(ConfigError::InvalidPattern { role: PatternRole::Video, pattern: vid_p });
        }
        let subtitle_extensions = parse_extensions(subtitle_ext);
        let video_extensions = parse_extensions(video_ext);
        if !root_exists {
            return Err(ConfigError::DirectoryNotFound { path: root });
        }
        Ok(
            Config {
                subtitle_pattern: sub_p,
                video_pattern: vid_p,
                subtitle_extensions,
                video_extensions,
                root,
                recursive,
                dry_run,
                quiet,
                verbose,
            },
        )
    }
}

} // verus!
