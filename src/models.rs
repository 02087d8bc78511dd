//! Records read from the store, request shapes and response views.

use vstd::prelude::*;
use crate::role::{role_of_name, Role};

verus! {

/// A tenant: identifier, display name, lifecycle state, signing secret and the
/// center it belongs to. The secret is used only as an HMAC key.
pub struct Project {
    pub id: String,
    pub name: String,
    pub state: String,
    pub token: String,
    pub center: String,
}

/// The grouping above projects.
pub struct Center {
    pub id: String,
    pub name: String,
}

/// An account row as the store returns it, without its password.
pub struct UserRecord {
    pub id: String,
    pub username: String,
    pub project: Option<String>,
}

/// An account inside a project realm.
pub struct UserInterv {
    pub id: String,
    pub role: Role,
    pub state: String,
}

impl UserInterv {
    /// The account with the role decoded from its persisted name.
    pub fn from_row(id: String, role: &str, state: String) -> (r: UserInterv)
        ensures
            r.id == id,
            r.role == role_of_name(role@),
            r.state == state,
    {
        UserInterv { id, role: Role::from_name(role), state }
    }
}

/// The project as shown to a client: never its secret.
pub struct ProjectToSend {
    pub id: String,
    pub center: Option<String>,
    pub name: String,
}

impl From<Project> for ProjectToSend {
    fn from(project: Project) -> (r: ProjectToSend) {
        ProjectToSend { id: project.id, center: None, name: project.name }
    }
}

impl vstd::std_specs::convert::FromSpecImpl<Project> for ProjectToSend {
    open spec fn obeys_from_spec() -> bool {
        true
    }

    open spec fn from_spec(project: Project) -> ProjectToSend {
        ProjectToSend { id: project.id, center: None, name: project.name }
    }
}

/// The authenticated user's view, built fresh for each request.
pub struct AuthUser {
    pub id: String,
    pub role: Option<String>,
    pub project: Option<ProjectToSend>,
    pub username: String,
    pub g_token: String,
    pub p_token: Option<String>,
}

/// A single issued token.
pub struct AuthToken {
    pub token: String,
}

impl From<String> for AuthToken {
    fn from(token: String) -> (r: AuthToken) {
        AuthToken { token }
    }
}

impl vstd::std_specs::convert::FromSpecImpl<String> for AuthToken {
    open spec fn obeys_from_spec() -> bool {
        true
    }

    open spec fn from_spec(token: String) -> AuthToken {
        AuthToken { token }
    }
}

/// Signup request: a username and an optional `projects:<key>` reference.
pub struct CredentialsSignup {
    pub username: String,
    pub project: Option<String>,
}

/// Login request.
pub struct CredentialsLogin {
    pub username: String,
    pub password: String,
}

/// Sign-in request by username alone.
pub struct CredentialsSignin {
    pub username: String,
}

/// Realm join request: the realm's namespace and partition and a one-time pass.
pub struct CredentialsJoin {
    pub ns: String,
    pub db: String,
    pub pass: String,
}

/// Refresh request: the routing key (`"global"` or a realm namespace), the
/// realm's partition and the token to refresh.
pub struct CredentialsRefresh {
    pub ns: String,
    pub db: String,
    pub token: String,
}

/// The rows one account lookup returns in a single round trip: the account,
/// its project, that project's center name and the role held there.
pub struct AccountRows {
    pub user: Option<UserRecord>,
    pub project: Option<Project>,
    pub center: Option<String>,
    pub role: Option<String>,
}

/// A failure reported by the store, with its diagnostic text.
pub struct StoreFailure {
    pub message: String,
}

} // verus!
