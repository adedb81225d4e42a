//! How the application starts: who draws its window, when it starts again on another renderer,
//! and where its library lies.

use vstd::prelude::*;

use crate::fields::texts;
use crate::upkeep::optional_text;

verus! {

/// Who draws the window.
#[derive(Debug, Clone, Copy, PartialEq, Eq, Structural)]
pub enum Renderer {
    Software,
    Gpu,
}

impl Renderer {
    /// The name by which the toolkit knows it.
    pub fn name(self) -> (r: &'static str)
        ensures
            r@ == match self {
                Renderer::Software => "software"@,
                Renderer::Gpu => "femtovg"@,
            },
    {
        match self {
            Renderer::Software => "software",
            Renderer::Gpu => "femtovg",
        }
    }
}

/// Which renderer is chosen. Where the environment names a backend it is left alone, unless
/// drawing in software is forced.
pub fn choose_renderer(force_software: bool, backend_named: bool, gpu_wanted: bool) -> (r: Option<
    Renderer,
>)
    ensures
        (r is None) == (backend_named && !force_software),
        r matches Some(renderer) ==> (renderer is Gpu <==> gpu_wanted && !force_software),
{
    if backend_named && !force_software {
        None
    } else if force_software || !gpu_wanted {
        Some(Renderer::Software)
    } else {
        Some(Renderer::Gpu)
    }
}

/// Whether the application starts again without the graphics card after its window could not
/// be drawn. It does so once, and only if it had chosen the graphics card itself.
pub fn can_fall_back(
    gpu_wanted: bool,
    backend_named: bool,
    fell_back: bool,
    force_software: bool,
) -> (r: bool)
    ensures
        r == (gpu_wanted && !backend_named && !fell_back && !force_software),
{
    gpu_wanted && !backend_named && !fell_back && !force_software
}

/// The library that is opened: the one that was asked for, or else the usual one where there
/// is one already.
pub fn library_to_open(asked: Option<String>, usual: &str, usual_has_index: bool) -> (r: Option<
    String,
>)
    ensures
        match asked {
            Some(root) => r == Some(root),
            None => if usual_has_index {
                r matches Some(root) && root@ == usual@
            } else {
                r is None
            },
        },
{
    match asked {
        Some(root) => Some(root),
        None => if usual_has_index {
            Some(usual.to_owned())
        } else {
            None
        },
    }
}

/// A directory: one that is known, if any, and the names below it.
#[derive(Debug, Clone, PartialEq, Eq)]
pub struct PlacedDir {
    pub base: Option<String>,
    pub below: Vec<String>,
}

/// Where the library lies if nothing else was said: with the data of the user. It follows the
/// application only where there is no such place.
pub open spec fn library_place(
    local_app_data: Option<Seq<char>>,
    exe_dir: Option<Seq<char>>,
) -> (Option<Seq<char>>, Seq<Seq<char>>) {
    if local_app_data is Some && local_app_data->0.len() > 0 {
        (local_app_data, seq!["asset-manager"@, "library"@])
    } else {
        (exe_dir, seq!["library"@])
    }
}

/// Where the library lies if nothing else was said.
pub fn default_library_root(local_app_data: Option<&str>, exe_dir: Option<&str>) -> (r: PlacedDir)
    ensures
        (
            match r.base {
                Some(base) => Some(base@),
                None => None,
            },
            texts(r.below@),
        ) == library_place(optional_text(local_app_data), optional_text(exe_dir)),
        local_app_data is Some && local_app_data->0@.len() > 0 ==> r.base is Some && r.base->0@
            == local_app_data->0@ && r.below@.len() == 2 && r.below@[0]@ == "asset-manager"@
            && r.below@[1]@ == "library"@,
        local_app_data is None || local_app_data->0@.len() == 0 ==> (r.base is Some <==> exe_dir
            is Some) && (exe_dir is Some ==> r.base->0@ == exe_dir->0@) && r.below@.len() == 1
            && r.below@[0]@ == "library"@,
{
    let mut below: Vec<String> = Vec::new();
    if let Some(base) = local_app_data {
        if base.unicode_len() > 0 {
            below.push("asset-manager".to_owned());
            below.push("library".to_owned());
            assert(texts(below@) =~= seq!["asset-manager"@, "library"@]);
            return PlacedDir { base: Some(base.to_owned()), below };
        }
    }
    below.push("library".to_owned());
    assert(texts(below@) =~= seq!["library"@]);
    let base = match exe_dir {
        Some(dir) => Some(dir.to_owned()),
        None => None,
    };
    PlacedDir { base, below }
}

/// Where the log lies if nothing else was said: with the data of the user, or else with what
/// is temporary. It is never the directory that the process happens to be in.
pub open spec fn log_place(
    local_app_data: Option<Seq<char>>,
    user_profile: Option<Seq<char>>,
    temp_dir: Seq<char>,
) -> (Seq<char>, Seq<Seq<char>>) {
    match (local_app_data, user_profile) {
        (Some(base), _) => (base, seq!["asset-manager"@, "logs"@]),
        (None, Some(base)) => (base, seq!["AppData"@, "Local"@, "asset-manager"@, "logs"@]),
        (None, None) => (temp_dir, seq!["asset-manager"@, "logs"@]),
    }
}

/// Where the log lies if nothing else was said.
pub fn default_log_dir(
    local_app_data: Option<&str>,
    user_profile: Option<&str>,
    temp_dir: &str,
) -> (r: PlacedDir)
    ensures
        r.base matches Some(base) && (base@, texts(r.below@)) == log_place(
            optional_text(local_app_data),
            optional_text(user_profile),
            temp_dir@,
        ),
        local_app_data is Some ==> r.base->0@ == local_app_data->0@,
        local_app_data is None && user_profile is Some ==> r.base->0@ == user_profile->0@,
        local_app_data is None && user_profile is None ==> r.base->0@ == temp_dir@,
        r.below@.len() == if local_app_data is None && user_profile is Some {
            4int
        } else {
            2int
        },
        local_app_data is None && user_profile is Some ==> r.below@[0]@ == "AppData"@ && r.below@[1]@
            == "Local"@,
        r.below@[r.below@.len() - 2]@ == "asset-manager"@,
        r.below@[r.below@.len() - 1]@ == "logs"@,
{
    let mut below: Vec<String> = Vec::new();
    let base = match (local_app_data, user_profile) {
        (Some(base), _) => base,
        (None, Some(base)) => {
            below.push("AppData".to_owned());
            below.push("Local".to_owned());
            base
        },
        (None, None) => temp_dir,
    };
    below.push("asset-manager".to_owned());
    below.push("logs".to_owned());
    assert(texts(below@) =~= log_place(
        optional_text(local_app_data),
        optional_text(user_profile),
        temp_dir@,
    ).1);
    PlacedDir { base: Some(base.to_owned()), below }
}

} // verus!
