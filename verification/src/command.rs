//! What the server does for a command, once the path in it was resolved.

use vstd::prelude::*;

use crate::access::{allowed, is_public, public_goes_by_first_name};
use crate::paths::{
    joined, leads_above, name_views, resolve, traversal_is_refused, PathPartView, ResolveError,
};
use crate::proto::{
    DownloadStartResponse, DownloadStartResponseView, TransferCommand, TransferCommandView,
    UploadResponse, UploadResponseView,
};
use crate::server::{
    change_denied, deny_change, upload_denied, UploadPhase, UploadSession, UploadSessionView,
};
use crate::text::{opt_text, replaced};

verus! {

/// What is done for a command.
pub enum CommandPlan {
    /// Close the connection. Nothing is answered.
    Close,
    /// Answer that there is no such file.
    Missing(DownloadStartResponse),
    /// Send the file from `offset` on.
    Send { offset: u64 },
    /// Take a file. The first action is to make its directory.
    Take(UploadSession),
    /// Answer that the file is not taken.
    DenyUpload(UploadResponse),
    /// Make a directory.
    MakeDir,
    /// Remove what is there.
    Remove,
    /// Answer that nothing is changed.
    DenyChange(&'static str),
}

/// What is done for a command, as a mathematical value.
pub enum CommandPlanView {
    Close,
    Missing(DownloadStartResponseView),
    Send { offset: u64 },
    Take(UploadSessionView),
    DenyUpload(UploadResponseView),
    MakeDir,
    Remove,
    DenyChange(Seq<char>),
}

impl View for CommandPlan {
    type V = CommandPlanView;

    open spec fn view(&self) -> CommandPlanView {
        match self {
            CommandPlan::Close => CommandPlanView::Close,
            CommandPlan::Missing(r) => CommandPlanView::Missing(r@),
            CommandPlan::Send { offset } => CommandPlanView::Send { offset: *offset },
            CommandPlan::Take(s) => CommandPlanView::Take(s@),
            CommandPlan::DenyUpload(r) => CommandPlanView::DenyUpload(r@),
            CommandPlan::MakeDir => CommandPlanView::MakeDir,
            CommandPlan::Remove => CommandPlanView::Remove,
            CommandPlan::DenyChange(t) => CommandPlanView::DenyChange(t@),
        }
    }
}

impl CommandPlanView {
    /// Whether something below the base directory is read or changed.
    pub open spec fn touches_files(self) -> bool {
        self is Send || self.changes_files()
    }

    /// Whether something below the base directory is changed.
    pub open spec fn changes_files(self) -> bool {
        self is Take || self is MakeDir || self is Remove
    }
}

impl TransferCommandView {
    /// The key in the command.
    pub open spec fn key(self) -> Option<Seq<char>> {
        match self {
            TransferCommandView::Download { path: _, offset: _ } => None,
            TransferCommandView::Upload { path: _, total_size: _, auth_key, hash: _ } => auth_key,
            TransferCommandView::Mkdir { path: _, auth_key } => auth_key,
            TransferCommandView::Remove { path: _, auth_key } => auth_key,
        }
    }
}

/// The answer where there is no such file.
pub open spec fn not_found() -> DownloadStartResponseView {
    DownloadStartResponseView { found: false, size: 0, hash: None }
}

/// What is done for a command whose path was resolved to names below the base directory, or was
/// refused.
pub open spec fn plan(
    command: TransferCommandView,
    resolved: Result<Seq<Seq<char>>, ResolveError>,
    admin_password: Option<Seq<char>>,
) -> CommandPlanView {
    match resolved {
        Err(_) => if command is Download {
            CommandPlanView::Missing(not_found())
        } else {
            CommandPlanView::Close
        },
        Ok(names) => {
            let may = allowed(
                replaced(joined(names), '\\', '/'),
                command.key(),
                admin_password,
            );
            match command {
                TransferCommandView::Download { path: _, offset } => CommandPlanView::Send {
                    offset,
                },
                TransferCommandView::Upload { path: _, total_size, auth_key: _, hash } => if may {
                    CommandPlanView::Take(
                        UploadSessionView { total_size, hash, phase: UploadPhase::Parent },
                    )
                } else {
                    CommandPlanView::DenyUpload(upload_denied())
                },
                TransferCommandView::Mkdir { path: _, auth_key: _ } => if may {
                    CommandPlanView::MakeDir
                } else {
                    CommandPlanView::DenyChange(change_denied())
                },
                TransferCommandView::Remove { path: _, auth_key: _ } => if may {
                    CommandPlanView::Remove
                } else {
                    CommandPlanView::DenyChange(change_denied())
                },
            }
        },
    }
}

/// What became of the path of a command, as a mathematical value.
pub open spec fn resolved_view(r: Result<&Vec<String>, ResolveError>) -> Result<
    Seq<Seq<char>>,
    ResolveError,
> {
    match r {
        Ok(names) => Ok(name_views(names@)),
        Err(e) => Err(e),
    }
}

/// Plans what is done for a command whose path was resolved to names below the base directory, or
/// was refused.
pub fn plan_command(
    command: TransferCommand,
    resolved: Result<&Vec<String>, ResolveError>,
    admin_password: &Option<String>,
) -> (r: CommandPlan)
    ensures
        r@ == plan(command@, resolved_view(resolved), opt_text(*admin_password)),
{
    match resolved {
        Err(_) => match command {
            TransferCommand::Download { path: _, offset: _ } => CommandPlan::Missing(
                DownloadStartResponse { found: false, size: 0, hash: None },
            ),
            _ => CommandPlan::Close,
        },
        Ok(names) => match command {
            TransferCommand::Download { path: _, offset } => CommandPlan::Send { offset },
            TransferCommand::Upload { path: _, total_size, auth_key, hash } => {
                match UploadSession::begin(names, total_size, &auth_key, hash, admin_password) {
                    Ok(session) => CommandPlan::Take(session),
                    Err(answer) => CommandPlan::DenyUpload(answer),
                }
            },
            TransferCommand::Mkdir { path: _, auth_key } => {
                match deny_change(names, &auth_key, admin_password) {
                    Some(answer) => CommandPlan::DenyChange(answer),
                    None => CommandPlan::MakeDir,
                }
            },
            TransferCommand::Remove { path: _, auth_key } => {
                match deny_change(names, &auth_key, admin_password) {
                    Some(answer) => CommandPlan::DenyChange(answer),
                    None => CommandPlan::Remove,
                }
            },
        },
    }
}

/// A command whose path is refused touches nothing. A download is answered that there is no such
/// file, and nothing else is answered.
pub proof fn refused_command_touches_nothing(
    command: TransferCommandView,
    e: ResolveError,
    admin_password: Option<Seq<char>>,
)
    ensures
        ({
            let p = plan(command, Err(e), admin_password);
            &&& !p.touches_files()
            &&& command is Download ==> p == CommandPlanView::Missing(not_found())
            &&& command !is Download ==> p is Close
        }),
{
}

/// So does a command whose path leads above the base directory, whatever links there are.
pub proof fn traversal_touches_nothing(
    command: TransferCommandView,
    parts: Seq<PathPartView>,
    links: spec_fn(Seq<Seq<char>>) -> bool,
    admin_password: Option<Seq<char>>,
)
    requires
        leads_above(parts, 0),
    ensures
        !plan(command, resolve(parts, Seq::empty(), links), admin_password).touches_files(),
{
    traversal_is_refused(parts, Seq::empty(), links);
}

/// With a password set, nothing outside the public directory is changed without it; with it,
/// everything can be.
pub proof fn changes_need_the_password(
    command: TransferCommandView,
    names: Seq<Seq<char>>,
    password: Seq<char>,
)
    requires
        password.len() > 0,
        command !is Download,
        !is_public(replaced(joined(names), '\\', '/')),
    ensures
        plan(command, Ok(names), Some(password)).changes_files() <==> command.key() == Some(
            password,
        ),
{
}

/// What is in the public directory can be changed by everyone, and so can everything where no
/// password is set.
pub proof fn public_changes_need_no_password(
    command: TransferCommandView,
    names: Seq<Seq<char>>,
    admin_password: Option<Seq<char>>,
)
    requires
        command !is Download,
        admin_password is Some && admin_password->Some_0.len() > 0 ==> names.len() > 0 && names[0]
            == "Public"@,
        forall|i: int|
            0 <= i < names.len() ==> !(#[trigger] names[i]).contains('/') && !names[i].contains(
                '\\',
            ),
    ensures
        plan(command, Ok(names), admin_password).changes_files(),
{
    public_goes_by_first_name(names);
}

/// Files can be downloaded by everyone.
pub proof fn downloads_need_no_password(
    path: Seq<char>,
    offset: u64,
    names: Seq<Seq<char>>,
    admin_password: Option<Seq<char>>,
)
    ensures
        plan(TransferCommandView::Download { path, offset }, Ok(names), admin_password) == (
        CommandPlanView::Send { offset }),
{
}

/// A command whose path is inside the base directory is carried out as it says, where the client
/// may: always for a download, and for a change where no password is set, where the place is public
/// or where the key is the password. Else the client is told that it may not.
pub proof fn commands_are_carried_out(
    command: TransferCommandView,
    names: Seq<Seq<char>>,
    admin_password: Option<Seq<char>>,
)
    ensures
        ({
            let p = plan(command, Ok(names), admin_password);
            let open = admin_password is None || admin_password->Some_0.len() == 0 || is_public(
                replaced(joined(names), '\\', '/'),
            );
            &&& command matches TransferCommandView::Download { path, offset } ==> p == (
            CommandPlanView::Send { offset })
            &&& command matches TransferCommandView::Upload { path, total_size, auth_key, hash }
                ==> if open || auth_key == admin_password {
                &&& p matches CommandPlanView::Take(s)
                &&& s.total_size == total_size && s.hash == hash
                &&& s.phase == UploadPhase::Parent
            } else {
                &&& p matches CommandPlanView::DenyUpload(r)
                &&& r.status == "denied"@ && r.start_offset == 0
                &&& r.message == Some("権限がありません(パスワード不一致)"@)
            }
            &&& command matches TransferCommandView::Mkdir { path, auth_key } ==> if open
                || auth_key == admin_password {
                p is MakeDir
            } else {
                p == CommandPlanView::DenyChange("権限エラー: パスワードが違います"@)
            }
            &&& command matches TransferCommandView::Remove { path, auth_key } ==> if open
                || auth_key == admin_password {
                p is Remove
            } else {
                p == CommandPlanView::DenyChange("権限エラー: パスワードが違います"@)
            }
        }),
{
}

/// A path that is refused is answered as a file that does not exist: nothing is announced of it.
pub proof fn refused_paths_are_not_found(
    path: Seq<char>,
    offset: u64,
    e: ResolveError,
    admin_password: Option<Seq<char>>,
)
    ensures
        plan(TransferCommandView::Download { path, offset }, Err(e), admin_password)
            matches CommandPlanView::Missing(r) && !r.found && r.size == 0 && r.hash is None,
{
}

} // verus!
