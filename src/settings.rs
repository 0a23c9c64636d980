use vstd::prelude::*;
use crate::cli::Args;
use crate::config::Config;

verus! {

/// Preview pane sizing used when neither layer sets one.
pub const DEFAULT_PREVIEW_WIDTH: &'static str = "right:60%";

/// Context lines shown around a match when neither layer sets a number.
pub const DEFAULT_PREVIEW_CONTEXT: usize = 2;

/// The effective configuration of one run, read-only once built.
pub struct Settings {
    pub pattern: String,
    pub path: String,
    pub ignore_case: bool,
    pub hidden: bool,
    pub follow: bool,
    pub no_ignore: bool,
    pub multi: bool,
    pub no_preview: bool,
    pub open: Option<String>,
    pub preview_width: String,
    pub preview_context: usize,
}

/// A toggle is on when either layer switches it on.
pub open spec fn toggle(explicit: bool, persisted: Option<bool>) -> bool {
    explicit || persisted == Some(true)
}

/// An optional value: the explicit one if present, else the persisted one.
pub open spec fn pick_opt<T>(explicit: Option<T>, persisted: Option<T>) -> Option<T> {
    match explicit {
        Some(v) => Some(v),
        None => persisted,
    }
}

/// A single value: the explicit one, else the persisted one, else the default.
pub open spec fn pick<T>(explicit: Option<T>, persisted: Option<T>, default: T) -> T {
    match pick_opt(explicit, persisted) {
        Some(v) => v,
        None => default,
    }
}

pub open spec fn opt_view(o: Option<String>) -> Option<Seq<char>> {
    match o {
        Some(s) => Some(s@),
        None => None,
    }
}

/// What merging the two layers yields, field by field.
pub open spec fn resolved(args: Args, cfg: Config, r: Settings) -> bool {
    &&& r.pattern@ == args.pattern@
    &&& r.path@ == args.path@
    &&& r.ignore_case == toggle(args.ignore_case, cfg.ignore_case)
    &&& r.hidden == toggle(args.hidden, cfg.hidden)
    &&& r.follow == toggle(args.follow, cfg.follow)
    &&& r.no_ignore == toggle(args.no_ignore, cfg.no_ignore)
    &&& r.multi == toggle(args.multi, cfg.multi)
    &&& r.no_preview == toggle(args.no_preview, cfg.no_preview)
    &&& opt_view(r.open) == pick_opt(opt_view(args.open), opt_view(cfg.open))
    &&& r.preview_width@ == pick(
        opt_view(args.preview_width),
        opt_view(cfg.preview_width),
        DEFAULT_PREVIEW_WIDTH@,
    )
    &&& r.preview_context == pick(
        args.preview_context,
        cfg.preview_context,
        DEFAULT_PREVIEW_CONTEXT,
    )
}

fn merge_toggle(explicit: bool, persisted: Option<bool>) -> (r: bool)
    ensures
        r == toggle(explicit, persisted),
{
    match persisted {
        Some(p) => explicit || p,
        None => explicit,
    }
}

fn merge_string(explicit: &Option<String>, persisted: &Option<String>) -> (r: Option<String>)
    ensures
        opt_view(r) == pick_opt(opt_view(*explicit), opt_view(*persisted)),
{
    match explicit {
        Some(v) => Some(v.clone()),
        None => match persisted {
            Some(v) => Some(v.clone()),
            None => None,
        },
    }
}

impl Settings {
    /// Merges the explicit layer over the persisted one over the defaults.
    pub fn from(args: &Args, cfg: &Config) -> (r: Settings)
        ensures
            resolved(*args, *cfg, r),
    {
        let preview_width = match merge_string(&args.preview_width, &cfg.preview_width) {
            Some(w) => w,
            None => String::from_str(DEFAULT_PREVIEW_WIDTH),
        };
        let preview_context = match args.preview_context {
            Some(n) => n,
            None => match cfg.preview_context {
                Some(n) => n,
                None => DEFAULT_PREVIEW_CONTEXT,
            },
        };
        Settings {
            pattern: args.pattern.clone(),
            path: args.path.clone(),
            ignore_case: merge_toggle(args.ignore_case, cfg.ignore_case),
            hidden: merge_toggle(args.hidden, cfg.hidden),
            follow: merge_toggle(args.follow, cfg.follow),
            no_ignore: merge_toggle(args.no_ignore, cfg.no_ignore),
            multi: merge_toggle(args.multi, cfg.multi),
            no_preview: merge_toggle(args.no_preview, cfg.no_preview),
            open: merge_string(&args.open, &cfg.open),
            preview_width,
            preview_context,
        }
    }
}

/// For any persisted and any explicit layer, each resolved toggle is the
/// logical OR of the two layers, and each single value is the explicit one if
/// present, else the persisted one, else the built-in default.
pub proof fn lemma_resolution_precedence(args: Args, cfg: Config, r: Settings)
    requires
        resolved(args, cfg, r),
    ensures
        r.ignore_case == (args.ignore_case || cfg.ignore_case == Some(true)),
        r.hidden == (args.hidden || cfg.hidden == Some(true)),
        r.follow == (args.follow || cfg.follow == Some(true)),
        r.no_ignore == (args.no_ignore || cfg.no_ignore == Some(true)),
        r.multi == (args.multi || cfg.multi == Some(true)),
        r.no_preview == (args.no_preview || cfg.no_preview == Some(true)),
        args.open is Some ==> r.open is Some && r.open->0@ == args.open->0@,
        args.open is None && cfg.open is Some ==> r.open is Some && r.open->0@
            == cfg.open->0@,
        args.open is None && cfg.open is None ==> r.open is None,
        args.preview_width is Some ==> r.preview_width@ == args.preview_width->0@,
        args.preview_width is None && cfg.preview_width is Some ==> r.preview_width@
            == cfg.preview_width->0@,
        args.preview_width is None && cfg.preview_width is None ==> r.preview_width@
            == "right:60%"@,
        args.preview_context is Some ==> r.preview_context == args.preview_context->0,
        args.preview_context is None && cfg.preview_context is Some ==> r.preview_context
            == cfg.preview_context->0,
        args.preview_context is None && cfg.preview_context is None ==> r.preview_context
            == 2,
{
}

} // verus!
