//! Discovery Scanner: the per-file pipeline (parse, filter, sanitize,
//! resolve icon) and its fold over a list of candidate files. Directory
//! walking and file reading happen outside the library; the scanner is
//! handed each candidate's path and text and assembles the application list
//! in traversal order. Files that are no desktop entries, fail to parse or
//! are filtered out are skipped.

use vstd::prelude::*;
use vstd::string::*;
use crate::chars::spec_ends_with;
use crate::chars::chars_ends_with;
use crate::chars::str_to_chars;
use crate::entry::Application;
use crate::entry::AppView;
use crate::entry::ScanSettings;
use crate::filter::spec_should_display;
use crate::parser::spec_parse_entry;
use crate::parser::parse_desktop_entry;
use crate::sanitize::spec_build_exec;
use crate::sanitize::build_exec;
use crate::icon::resolve_icon;

verus! {

/// One file offered to the scanner: where it was found and what it holds.
pub struct CandidateFile {
    pub path: String,
    pub content: String,
}

pub ghost struct CandidateView {
    pub path: Seq<char>,
    pub content: Seq<char>,
}

impl View for CandidateFile {
    type V = CandidateView;

    open spec fn view(&self) -> CandidateView {
        CandidateView { path: self.path@, content: self.content@ }
    }
}

impl DeepView for CandidateFile {
    type V = CandidateView;

    open spec fn deep_view(&self) -> CandidateView {
        self.view()
    }
}

/// The deterministic part of one application record: everything but the
/// icon path, which depends on the filesystem.
pub ghost struct AppCore {
    pub name: Seq<char>,
    pub comment: Seq<char>,
    pub exec_cmd: Seq<char>,
}

pub open spec fn app_core(a: AppView) -> AppCore {
    AppCore { name: a.name, comment: a.comment, exec_cmd: a.exec_cmd }
}

pub open spec fn cores_of(apps: Seq<AppView>) -> Seq<AppCore> {
    apps.map_values(|a: AppView| app_core(a))
}

/// The conventional desktop-entry file suffix.
pub open spec fn spec_is_desktop_path(path: Seq<char>) -> bool {
    spec_ends_with(path, ".desktop"@)
}

pub fn is_desktop_file(path: &String) -> (r: bool)
    ensures
        r == spec_is_desktop_path(path@),
{
    let cs = str_to_chars(path.as_str());
    let suffix = str_to_chars(".desktop");
    chars_ends_with(&cs, &suffix)
}

/// What one file's text contributes: an application with this name, comment
/// and launch command, or nothing when parsing fails or a visibility rule
/// rejects the entry.
pub open spec fn spec_process_file(content: Seq<char>, de: Seq<char>, term: Seq<char>) -> Option<
    AppCore,
> {
    match spec_parse_entry(content) {
        Err(_) => None,
        Ok(e) => if !spec_should_display(e, de) {
            None
        } else {
            Some(
                AppCore {
                    name: e.name,
                    comment: e.comment,
                    exec_cmd: spec_build_exec(e.exec_cmd->0, e.name, e.terminal, term),
                },
            )
        },
    }
}

/// The full per-file pipeline: parse, filter, sanitize the command, resolve
/// the icon. The returned record's name, comment and command are exactly
/// what `spec_process_file` names; the icon path comes from the lookup
/// collaborator.
pub fn parse_application(
    content: &str,
    desktop_environment: &String,
    terminal_app: &String,
    icon_theme_fallback: &String,
) -> (r: Option<Application>)
    ensures
        match r {
            Some(a) => spec_process_file(content@, desktop_environment@, terminal_app@) == Some(
                app_core(a@),
            ),
            None => spec_process_file(content@, desktop_environment@, terminal_app@) is None,
        },
        match (r, spec_parse_entry(content@)) {
            (Some(a), Ok(e)) => (e.icon is None ==> a@.icon == Seq::<char>::empty()) && (match e.icon {
                Some(n) => (n.len() > 0 && n[0] == '/') ==> a@.icon == n,
                None => true,
            }),
            _ => true,
        },
{
    let e = match parse_desktop_entry(content) {
        Err(_) => {
            return None;
        },
        Ok(e) => e,
    };
    if !e.should_display(desktop_environment) {
        return None;
    }
    let raw = match &e.exec_cmd {
        None => {
            proof {
                assert(false);
            }
            return None;
        },
        Some(raw) => raw,
    };
    let cmd = build_exec(raw, &e.name, e.terminal, terminal_app);
    let icon = resolve_icon(&e.icon, icon_theme_fallback);
    Some(Application { name: e.name.clone(), comment: e.comment.clone(), icon, exec_cmd: cmd })
}

/// An application record comes only from text that parses and whose entry
/// passes every visibility rule — so only entries of type `Application`,
/// with an exec value, neither hidden nor filtered out by the environment
/// lists — and from every such text one comes.
pub proof fn lemma_only_visible_applications(content: Seq<char>, de: Seq<char>, term: Seq<char>)
    ensures
        match spec_parse_entry(content) {
            Ok(e) => (spec_process_file(content, de, term) is Some) == spec_should_display(e, de),
            Err(_) => spec_process_file(content, de, term) is None,
        },
{
}

/// The applications contributed by the candidate files, in traversal order:
/// only files with the desktop suffix take part, and each contributes
/// exactly what `spec_process_file` names.
pub open spec fn spec_scan(files: Seq<CandidateView>, de: Seq<char>, term: Seq<char>) -> Seq<
    AppCore,
>
    decreases files.len(),
{
    if files.len() == 0 {
        Seq::empty()
    } else {
        let rest = spec_scan(files.skip(1), de, term);
        if spec_is_desktop_path(files[0].path) {
            match spec_process_file(files[0].content, de, term) {
                Some(c) => seq![c] + rest,
                None => rest,
            }
        } else {
            rest
        }
    }
}

fn collect_from(
    files: &Vec<CandidateFile>,
    i: usize,
    de: &String,
    term: &String,
    theme: &String,
) -> (r: Vec<Application>)
    requires
        i <= files.len(),
    ensures
        cores_of(r.deep_view()) == spec_scan(files.deep_view().skip(i as int), de@, term@),
    decreases files.len() - i,
{
    if i == files.len() {
        let r: Vec<Application> = Vec::new();
        proof {
            assert(files.deep_view().skip(i as int).len() == 0);
            assert(cores_of(r.deep_view()) =~= spec_scan(
                files.deep_view().skip(i as int),
                de@,
                term@,
            ));
        }
        return r;
    }
    let rest = collect_from(files, i + 1, de, term, theme);
    let ghost fdv = files.deep_view();
    proof {
        assert(fdv.skip(i as int)[0] == files@[i as int].deep_view());
        assert(fdv.skip(i as int).skip(1) =~= fdv.skip(i + 1));
    }
    if is_desktop_file(&files[i].path) {
        match parse_application(files[i].content.as_str(), de, term, theme) {
            Some(a) => {
                let ghost av = a@;
                let ghost rest_dv = rest.deep_view();
                let mut out: Vec<Application> = Vec::new();
                out.push(a);
                let mut rm = rest;
                out.append(&mut rm);
                proof {
                    let target = seq![av] + rest_dv;
                    assert forall|m: int| 0 <= m < out@.len() implies out.deep_view()[m]
                        == target[m] by {
                        assert(out.deep_view()[m] == out@[m].deep_view());
                        if m > 0 {
                            assert(rest_dv[m - 1] == out@[m].deep_view());
                        }
                    }
                    assert(out.deep_view() =~= target);
                    assert(cores_of(out.deep_view()) =~= seq![app_core(av)] + cores_of(rest_dv));
                }
                out
            },
            None => rest,
        }
    } else {
        rest
    }
}

/// The Discovery Scanner's assembly step: every candidate run through the
/// pipeline, results in traversal order. Persisting the list afterwards is
/// the caller's step, through the cache codec.
pub fn collect_applications(files: &Vec<CandidateFile>, settings: &ScanSettings) -> (r: Vec<
    Application,
>)
    ensures
        cores_of(r.deep_view()) == spec_scan(
            files.deep_view(),
            settings.desktop_environment@,
            settings.terminal_app@,
        ),
{
    let r = collect_from(
        files,
        0,
        &settings.desktop_environment,
        &settings.terminal_app,
        &settings.icon_theme_fallback,
    );
    proof {
        assert(files.deep_view().skip(0) =~= files.deep_view());
    }
    r
}

} // verus!
