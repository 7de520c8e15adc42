//! The AyuxOS filesystem layout: fixed locations of the immutable system
//! tree, of user profiles and of service sockets.
use vstd::prelude::*;

use crate::strs;

verus! {

/// Root of the immutable operating system.
pub const AYUX_ROOT: &'static str = "/ayux";

pub const AYUX_APPS: &'static str = "/ayux/apps";

pub const AYUX_SYSTEM: &'static str = "/ayux/system";

pub const AYUX_SERVICES: &'static str = "/ayux/services";

pub const AYUX_SECURITY: &'static str = "/ayux/security";

pub const AYUX_CONFIG: &'static str = "/ayux/config";

pub const AYUX_RUNTIME: &'static str = "/ayux/runtime";

pub const AYUX_THEMES: &'static str = "/ayux/themes";

pub const AYUX_CACHE: &'static str = "/ayux/cache";

pub const AYUX_LOGS: &'static str = "/ayux/logs";

pub const AYUX_UPDATES: &'static str = "/ayux/updates";

pub const AYUX_FONTS: &'static str = "/ayux/fonts";

pub const AYUX_ICONS: &'static str = "/ayux/icons";

pub const AYUX_CERTIFICATES: &'static str = "/ayux/certificates";

pub const AYUX_LIBRARIES: &'static str = "/ayux/libraries";

pub const AYUX_MANIFESTS: &'static str = "/ayux/manifests";

pub const AYUX_NATIVE: &'static str = "/ayux/native";

pub const AYUX_MEDIA: &'static str = "/ayux/media";

pub const AYUX_DEVICES: &'static str = "/ayux/devices";

pub const AYUX_TMP: &'static str = "/ayux/tmp";

/// Root for user data.
pub const USERS_ROOT: &'static str = "/users";

/// Root for administrator data.
pub const ROOT_ROOT: &'static str = "/root";

/// Service socket paths.
pub const LOG_SOCKET: &'static str = "/ayux/runtime/log.sock";

pub const AUTH_SOCKET: &'static str = "/ayux/runtime/auth.sock";

pub const SESSION_SOCKET: &'static str = "/ayux/runtime/session.sock";

pub const SECURITY_SOCKET: &'static str = "/ayux/runtime/security.sock";

pub const NETWORK_SOCKET: &'static str = "/ayux/runtime/network.sock";

pub const WINDOW_SERVER_SOCKET: &'static str = "/ayux/runtime/window_server.sock";

/// The home directory of the user with the given internal ID.
pub open spec fn home_of(internal_id: Seq<char>) -> Seq<char> {
    USERS_ROOT@ + "/"@ + internal_id
}

/// Returns the home directory for a user given their internal ID.
pub fn user_home(internal_id: &str) -> (p: String)
    ensures
        p@ == home_of(internal_id@),
{
    strs::concat3(USERS_ROOT, "/", internal_id)
}

/// Returns the AppData directory for a native application for a specific user.
pub fn user_app_data(internal_id: &str, app_name: &str) -> (p: String)
    ensures
        p@ == home_of(internal_id@) + "/AppData/"@ + app_name@,
{
    let mut p = user_home(internal_id);
    p.append("/AppData/");
    p.append(app_name);
    p
}

/// Returns the Third-Party apps directory for a specific user.
pub fn user_apps(internal_id: &str) -> (p: String)
    ensures
        p@ == home_of(internal_id@) + "/Apps"@,
{
    let mut p = user_home(internal_id);
    p.append("/Apps");
    p
}

/// Returns the path to a system service executable.
pub fn service_executable(name: &str) -> (p: String)
    ensures
        p@ == AYUX_SERVICES@ + "/"@ + name@,
{
    strs::concat3(AYUX_SERVICES, "/", name)
}

/// Returns the path to a native application executable.
pub fn app_executable(name: &str) -> (p: String)
    ensures
        p@ == AYUX_APPS@ + "/"@ + name@,
{
    strs::concat3(AYUX_APPS, "/", name)
}

/// Location of the system secret used to derive user IDs.
pub fn system_secret_path() -> (p: String)
    ensures
        p@ == AYUX_SECURITY@ + "/system_secret"@,
{
    strs::concat2(AYUX_SECURITY, "/system_secret")
}

/// Location of the user database.
pub fn auth_db_path() -> (p: String)
    ensures
        p@ == ROOT_ROOT@ + "/auth/users.db"@,
{
    strs::concat2(ROOT_ROOT, "/auth/users.db")
}

} // verus!
