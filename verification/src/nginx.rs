//! How Nginx is restarted after a renewal: reloaded in place, or killed
//! and started again.
use crate::config::NginxConfig;
use crate::text::{blank, cat, is_blank, lower, owned, str_eq, to_ascii_lowercase, trim, trim_ws};
use vstd::prelude::*;

verus! {

/// The process image killed when none is configured.
pub const DEFAULT_KILL_IMAGE: &'static str = "nginx.exe";

/// What restarting Nginx takes.
pub enum NginxPlan {
    /// Restarting is turned off.
    Skip,
    /// Run `<exe> -s reload` in the working directory.
    Reload { exe_path: String, working_dir: String },
    /// Kill every process of the image, then start `<exe>` in the working
    /// directory.
    KillStart { image: String, exe_path: String, working_dir: String },
}

/// The restart mode reloads when it is `reload`, ignoring case and
/// surrounding whitespace.
pub open spec fn reloads(mode: Seq<char>) -> bool {
    lower(trim_ws(mode)) == "reload"@
}

pub fn restart_plan(config: &NginxConfig) -> (r: NginxPlan)
    ensures
        !config.enabled ==> r is Skip,
        config.enabled && reloads(config.restart_mode@) ==> r == (NginxPlan::Reload {
            exe_path: config.exe_path,
            working_dir: config.working_dir,
        }),
        config.enabled && !reloads(config.restart_mode@) ==> ({
            &&& r matches NginxPlan::KillStart { image, exe_path, working_dir }
            &&& exe_path == config.exe_path
            &&& working_dir == config.working_dir
            &&& image@ == (if blank(config.kill_image_name@) {
                "nginx.exe"@
            } else {
                trim_ws(config.kill_image_name@)
            })
        }),
{
    if !config.enabled {
        return NginxPlan::Skip;
    }
    let mode = to_ascii_lowercase(trim(config.restart_mode.as_str()));
    if str_eq(mode.as_str(), "reload") {
        return NginxPlan::Reload {
            exe_path: config.exe_path.clone(),
            working_dir: config.working_dir.clone(),
        };
    }
    let image = if is_blank(config.kill_image_name.as_str()) {
        String::from_str(DEFAULT_KILL_IMAGE)
    } else {
        owned(trim(config.kill_image_name.as_str()))
    };
    NginxPlan::KillStart {
        image,
        exe_path: config.exe_path.clone(),
        working_dir: config.working_dir.clone(),
    }
}

/// The error of a reload that exited with failure, with its trimmed
/// standard error.
pub fn reload_failure_message(stderr: &str) -> (r: String)
    ensures
        r@ == "nginx -s reload 执行失败："@ + trim_ws(stderr@),
{
    cat("nginx -s reload 执行失败：", trim(stderr))
}

/// The error when `<exe> -s reload` could not be run.
pub fn reload_launch_message(exe_path: &str) -> (r: String)
    ensures
        r@ == "执行 nginx -s reload 失败："@ + exe_path@,
{
    cat("执行 nginx -s reload 失败：", exe_path)
}

/// The error when Nginx could not be started.
pub fn start_failure_message(exe_path: &str) -> (r: String)
    ensures
        r@ == "启动 Nginx 失败："@ + exe_path@,
{
    cat("启动 Nginx 失败：", exe_path)
}

} // verus!
