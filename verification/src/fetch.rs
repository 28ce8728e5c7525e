//! Fetching a project: where to ask, and what to make of the answer.
//!
//! A fetch is one request and one answer. The library says which address to
//! ask and interprets what came back; the request itself is made by a transport
//! that the caller supplies.

use crate::decimal::{numeral, render_numeral};
use crate::decode::{body_project, read_body};
use crate::error::{FetchError, FetchErrorModel, TransportError, TransportErrorModel};
use crate::types::{Project, ProjectModel};
use vstd::prelude::*;
use vstd::string::*;

verus! {

/// The address of the API, to which the path of a project is added.
pub open spec fn api_root() -> Seq<char> {
    "https://api.cfwidget.com/"@
}

/// The address of the project `project` in the category `category` of the game
/// `game`.
pub open spec fn info_address(game: Seq<char>, category: Seq<char>, project: Seq<char>) -> Seq<
    char,
> {
    api_root() + game + seq!['/'] + category + seq!['/'] + project
}

/// The address of the project with the identifier `id`.
pub open spec fn id_address(id: u32) -> Seq<char> {
    api_root() + numeral(id as nat)
}

/// What a transport hands back for one request.
#[derive(Clone, Debug, PartialEq, Eq)]
pub enum Reply {
    /// The request could not be completed. The text is what the transport says
    /// of it.
    Failed(String),
    /// The server answered.
    Answered { status: u16, body: String },
}

/// The mathematical value of a [`Reply`].
pub enum ReplyModel {
    Failed(Seq<char>),
    Answered { status: u16, body: Seq<char> },
}

impl View for Reply {
    type V = ReplyModel;

    open spec fn view(&self) -> ReplyModel {
        match self {
            Reply::Failed(t) => ReplyModel::Failed(t@),
            Reply::Answered { status, body } => ReplyModel::Answered {
                status: *status,
                body: body@,
            },
        }
    }
}

/// Whether a status says that the request succeeded.
pub open spec fn is_success(status: u16) -> bool {
    200 <= status <= 299
}

/// What a reply amounts to: a request that failed, or that was answered with a
/// status that is no success, is a transport error, whatever the body holds;
/// the body of a success is read as a project, and is a decode error where it
/// cannot be.
pub open spec fn outcome(reply: ReplyModel) -> Result<ProjectModel, FetchErrorModel> {
    match reply {
        ReplyModel::Failed(t) => Err(FetchErrorModel::Transport(TransportErrorModel::Unreachable(t))),
        ReplyModel::Answered { status, body } => if !is_success(status) {
            Err(FetchErrorModel::Transport(TransportErrorModel::Status(status)))
        } else {
            match body_project(body) {
                Ok(p) => Ok(p),
                Err(e) => Err(FetchErrorModel::Decode(e)),
            }
        },
    }
}

/// Whether the result `r` is the outcome `o`.
pub open spec fn is_outcome(
    r: Result<Project, FetchError>,
    o: Result<ProjectModel, FetchErrorModel>,
) -> bool {
    match r {
        Ok(p) => o == Ok::<ProjectModel, FetchErrorModel>(p@) && p@.wf(),
        Err(e) => o == Err::<ProjectModel, FetchErrorModel>(e@),
    }
}

/// The address to ask for a project by the game it is for, its category and its
/// name.
pub fn address_by_info(game: &str, category: &str, project: &str) -> (r: String)
    ensures
        r@ == info_address(game@, category@, project@),
{
    proof {
        reveal_strlit("/");
    }
    let mut r = String::new();
    r.append("https://api.cfwidget.com/");
    r.append(game);
    r.append("/");
    r.append(category);
    r.append("/");
    r.append(project);
    assert(r@ =~= info_address(game@, category@, project@));
    r
}

/// The address to ask for a project by its identifier.
pub fn address_by_id(id: u32) -> (r: String)
    ensures
        r@ == id_address(id),
{
    let mut r = String::new();
    r.append("https://api.cfwidget.com/");
    let digits = render_numeral(id as u128);
    r.append(digits.as_str());
    assert(r@ =~= id_address(id));
    r
}

/// Interprets what the transport handed back.
pub fn conclude(reply: Reply) -> (r: Result<Project, FetchError>)
    ensures
        is_outcome(r, outcome(reply@)),
{
    match reply {
        Reply::Failed(t) => Err(FetchError::Transport(TransportError::Unreachable(t))),
        Reply::Answered { status, body } => {
            if status < 200 || status > 299 {
                Err(FetchError::Transport(TransportError::Status(status)))
            } else {
                match read_body(body.as_str()) {
                    Ok(p) => Ok(p),
                    Err(e) => Err(FetchError::Decode(e)),
                }
            }
        },
    }
}

/// Fetches a project's info by the game it is for, its category and its name,
/// as they stand in the project's CurseForge address: Xaero's Minimap for
/// Minecraft is `minecraft`, `mc-mods`, `xaeros-minimap`.
///
/// The transport is asked once, for the address of the project, and the result
/// is what its reply amounts to.
pub fn fetch_project_by_info<F: FnOnce(String) -> Reply>(
    game_name: &str,
    category: &str,
    project_name: &str,
    transport: F,
) -> (r: Result<Project, FetchError>)
    requires
        forall|address: String|
            address@ == info_address(game_name@, category@, project_name@)
                ==> transport.requires((address,)),
    ensures
        exists|address: String, reply: Reply|
            address@ == info_address(game_name@, category@, project_name@)
                && #[trigger] transport.ensures((address,), reply) && is_outcome(
                r,
                outcome(reply@),
            ),
{
    let address = address_by_info(game_name, category, project_name);
    let ghost asked = address;
    let reply = transport(address);
    let ghost got = reply;
    let r = conclude(reply);
    assert(transport.ensures((asked,), got) && is_outcome(r, outcome(got@)));
    r
}

/// Fetches a project's info by its project identifier: Xaero's Minimap for
/// Minecraft is 263420.
///
/// The transport is asked once, for the address of the project, and the result
/// is what its reply amounts to.
pub fn fetch_project_by_id<F: FnOnce(String) -> Reply>(id: u32, transport: F) -> (r: Result<
    Project,
    FetchError,
>)
    requires
        forall|address: String| address@ == id_address(id) ==> transport.requires((address,)),
    ensures
        exists|address: String, reply: Reply|
            address@ == id_address(id) && #[trigger] transport.ensures((address,), reply)
                && is_outcome(r, outcome(reply@)),
{
    let address = address_by_id(id);
    let ghost asked = address;
    let reply = transport(address);
    let ghost got = reply;
    let r = conclude(reply);
    assert(transport.ensures((asked,), got) && is_outcome(r, outcome(got@)));
    r
}

} // verus!
