use vstd::prelude::*;
use vstd::string::StrSliceExecFns;
use vstd::string::StringExecFns;

use crate::descriptor::{
    lemma_parse_serialized, parsed, serialized, valid_descriptor, DescriptorModel, LauncherDescriptor, ParseError, RequiredField,
};
use crate::store::descriptor_file_name;
use crate::text::ends_with;

verus! {

/// Index of the last occurrence of `c` in `s`, or -1.
pub open spec fn last_index(s: Seq<char>, c: char) -> int
    decreases s.len(),
{
    if s.len() == 0 {
        -1
    } else if s.last() == c {
        s.len() - 1
    } else {
        last_index(s.drop_last(), c)
    }
}

proof fn lemma_last_index(s: Seq<char>, c: char, k: int)
    requires
        -1 <= k < s.len(),
        forall|j: int| k < j < s.len() ==> s[j] != c,
        k == -1 || s[k] == c,
    ensures
        last_index(s, c) == k,
    decreases s.len(),
{
    if s.len() > 0 && s.last() != c {
        let t = s.drop_last();
        assert forall|j: int| k < j < t.len() implies t[j] != c by {
            assert(t[j] == s[j]);
        }
        if k >= 0 {
            assert(t[k] == s[k]);
        }
        lemma_last_index(t, c, k);
    }
}

/// `dir` joined with `name`, with one `/` between them.
pub open spec fn join_path(dir: Seq<char>, name: Seq<char>) -> Seq<char> {
    if ends_with(dir, seq!['/']) {
        dir + name
    } else {
        dir + seq!['/'] + name
    }
}

/// The directory into which a package unpacks, beside the package file.
pub open spec fn scratch_dir_name() -> Seq<char> {
    "squashfs-root"@
}

/// A request to install the package file at `file_path`.
#[derive(Clone, Debug)]
pub struct InstallRequest {
    pub file_path: String,
    pub no_sandbox: Option<bool>,
}

/// The fixed paths of one install.
#[derive(Clone, Debug)]
pub struct InstallPlan {
    pub source_path: String,
    pub source_dir: String,
    pub file_name: String,
    pub scratch_root: String,
    pub install_dir: String,
    pub no_sandbox: bool,
}

pub struct PlanModel {
    pub source_path: Seq<char>,
    pub source_dir: Seq<char>,
    pub file_name: Seq<char>,
    pub scratch_root: Seq<char>,
    pub install_dir: Seq<char>,
    pub no_sandbox: bool,
}

impl View for InstallPlan {
    type V = PlanModel;

    open spec fn view(&self) -> PlanModel {
        PlanModel {
            source_path: self.source_path@,
            source_dir: self.source_dir@,
            file_name: self.file_name@,
            scratch_root: self.scratch_root@,
            install_dir: self.install_dir@,
            no_sandbox: self.no_sandbox,
        }
    }
}

/// The package file's path names a file inside a directory.
pub open spec fn valid_source(path: Seq<char>) -> bool {
    let k = last_index(path, '/');
    0 <= k < path.len() - 1
}

/// The plan for a package at `path`, installed into `install_dir`.
pub open spec fn planned(path: Seq<char>, install_dir: Seq<char>, no_sandbox: bool) -> PlanModel {
    let k = last_index(path, '/');
    let dir = if k == 0 {
        seq!['/']
    } else {
        path.subrange(0, k)
    };
    PlanModel {
        source_path: path,
        source_dir: dir,
        file_name: path.subrange(k + 1, path.len() as int),
        scratch_root: join_path(dir, scratch_dir_name()),
        install_dir,
        no_sandbox,
    }
}

/// Why an install stopped.
#[derive(Clone, Debug)]
pub enum InstallError {
    /// No install directory is configured.
    MissingInstallPath,
    /// The package path names no file inside a directory.
    InvalidSourcePath,
    /// The package could not be unpacked, or held no descriptor.
    Extraction(String),
    /// The package's descriptor could not be read.
    Parse(ParseError),
    /// A descriptor of that name is already registered.
    AlreadyInstalled,
    /// Copying or writing a file failed.
    Io(String),
}

pub enum ErrorModel {
    MissingInstallPath,
    InvalidSourcePath,
    Extraction(Seq<char>),
    Parse(ParseError),
    AlreadyInstalled,
    Io(Seq<char>),
}

pub open spec fn error_view(e: InstallError) -> ErrorModel {
    match e {
        InstallError::MissingInstallPath => ErrorModel::MissingInstallPath,
        InstallError::InvalidSourcePath => ErrorModel::InvalidSourcePath,
        InstallError::Extraction(m) => ErrorModel::Extraction(m@),
        InstallError::Parse(p) => ErrorModel::Parse(p),
        InstallError::AlreadyInstalled => ErrorModel::AlreadyInstalled,
        InstallError::Io(m) => ErrorModel::Io(m@),
    }
}

fn join(dir: &str, name: &str) -> (r: String)
    ensures
        r@ == join_path(dir@, name@),
{
    let n = dir.unicode_len();
    let mut r = String::from_str(dir);
    proof {
        reveal_strlit("/");
    }
    if !(n > 0 && dir.get_char(n - 1) == '/') {
        r.append("/");
        if n > 0 {
            assert(dir@.subrange(n - 1, n as int)[0] == dir@[n - 1]);
        }
        assert(!ends_with(dir@, seq!['/']));
    } else {
        assert(dir@.subrange(dir@.len() - 1, dir@.len() as int) =~= seq!['/']);
    }
    r.append(name);
    r
}

/// The fixed paths of an install: the package's directory and file name, the unpack
/// directory beside it, and where the package goes.
pub fn plan_install(request: &InstallRequest, install_dir: Option<String>) -> (r: Result<InstallPlan, InstallError>)
    ensures
        install_dir is None ==> r matches Err(InstallError::MissingInstallPath),
        install_dir matches Some(d) ==> {
            if valid_source(request.file_path@) {
                r matches Ok(p) && p@ == planned(request.file_path@, d@, request.no_sandbox == Some(true))
            } else {
                r matches Err(InstallError::InvalidSourcePath)
            }
        },
{
    let install_dir = match install_dir {
        Some(d) => d,
        None => return Err(InstallError::MissingInstallPath),
    };
    let path = request.file_path.as_str();
    let n = path.unicode_len();
    let mut k: usize = n;
    while k > 0 && path.get_char(k - 1) != '/'
        invariant
            n == path@.len(),
            k <= n,
            forall|j: int| k <= j < n ==> path@[j] != '/',
        decreases k,
    {
        k = k - 1;
    }
    proof {
        lemma_last_index(path@, '/', k - 1);
    }
    if k == 0 || k == n {
        return Err(InstallError::InvalidSourcePath);
    }
    let source_dir = if k == 1 {
        String::from_str("/")
    } else {
        String::from_str(path.substring_char(0, k - 1))
    };
    proof {
        reveal_strlit("/");
        reveal_strlit("squashfs-root");
    }
    let file_name = String::from_str(path.substring_char(k, n));
    let scratch_root = join(source_dir.as_str(), "squashfs-root");
    let no_sandbox = match request.no_sandbox {
        Some(b) => b,
        None => false,
    };
    let plan = InstallPlan {
        source_path: request.file_path.clone(),
        source_dir,
        file_name,
        scratch_root,
        install_dir,
        no_sandbox,
    };
    assert(plan@.source_dir == planned(request.file_path@, plan@.install_dir, no_sandbox).source_dir);
    assert(plan@.file_name == planned(request.file_path@, plan@.install_dir, no_sandbox).file_name);
    assert(plan@.scratch_root == planned(request.file_path@, plan@.install_dir, no_sandbox).scratch_root);
    assert(plan@ == planned(request.file_path@, plan@.install_dir, no_sandbox));
    Ok(plan)
}

/// The step of an install whose outcome is awaited.
#[derive(Clone, Copy, Debug, PartialEq, Eq, Structural)]
pub enum InstallStage {
    GrantPermission,
    ExtractDescriptor,
    ReadDescriptor,
    ExtractContent,
    InstallIcon,
    PersistDescriptor,
    InstallBinary,
    Cleanup,
    Finished,
}

/// What the caller is to do next.
#[derive(Debug)]
pub enum InstallAction {
    /// Make the package file executable; the outcome does not matter.
    GrantPermission,
    /// Unpack only the package's descriptor into the unpack directory.
    ExtractDescriptor,
    /// Hand back the text of the descriptor found in the unpack directory.
    ReadDescriptor,
    /// Unpack the whole package into the unpack directory.
    ExtractContent,
    /// Copy the package's icons into the shell's icon directory.
    InstallIcon,
    /// Create this file, with this text, in the registration directory; never replace one.
    PersistDescriptor { file_name: String, text: String },
    /// Copy the package file into the install directory.
    InstallBinary,
    /// Remove the unpack directory; the outcome does not matter.
    RemoveScratch,
    /// The install is over, with this result.
    Report(Result<(), InstallError>),
}

/// The outcome of the last action.
#[derive(Clone, Debug)]
pub enum InstallEvent {
    Done,
    Failed(String),
    /// The descriptor's text, in answer to `ReadDescriptor`.
    DescriptorText(String),
    /// The descriptor file already existed, in answer to `PersistDescriptor`.
    NameTaken,
}

pub enum ActionModel {
    GrantPermission,
    ExtractDescriptor,
    ReadDescriptor,
    ExtractContent,
    InstallIcon,
    PersistDescriptor { file_name: Seq<char>, text: Seq<char> },
    InstallBinary,
    RemoveScratch,
    Report(Result<(), ErrorModel>),
}

pub enum EventModel {
    Done,
    Failed(Seq<char>),
    DescriptorText(Seq<char>),
    NameTaken,
}

pub open spec fn outcome_view(o: Result<(), InstallError>) -> Result<(), ErrorModel> {
    match o {
        Ok(()) => Ok(()),
        Err(e) => Err(error_view(e)),
    }
}

pub open spec fn action_view(a: InstallAction) -> ActionModel {
    match a {
        InstallAction::GrantPermission => ActionModel::GrantPermission,
        InstallAction::ExtractDescriptor => ActionModel::ExtractDescriptor,
        InstallAction::ReadDescriptor => ActionModel::ReadDescriptor,
        InstallAction::ExtractContent => ActionModel::ExtractContent,
        InstallAction::InstallIcon => ActionModel::InstallIcon,
        InstallAction::PersistDescriptor { file_name, text } => ActionModel::PersistDescriptor {
            file_name: file_name@,
            text: text@,
        },
        InstallAction::InstallBinary => ActionModel::InstallBinary,
        InstallAction::RemoveScratch => ActionModel::RemoveScratch,
        InstallAction::Report(o) => ActionModel::Report(outcome_view(o)),
    }
}

pub open spec fn event_view(e: InstallEvent) -> EventModel {
    match e {
        InstallEvent::Done => EventModel::Done,
        InstallEvent::Failed(m) => EventModel::Failed(m@),
        InstallEvent::DescriptorText(t) => EventModel::DescriptorText(t@),
        InstallEvent::NameTaken => EventModel::NameTaken,
    }
}

/// A running install.
pub struct Installer {
    pub plan: InstallPlan,
    pub stage: InstallStage,
    /// The descriptor read from the package, once it has been read.
    pub descriptor: Option<LauncherDescriptor>,
    /// The result to report, once it is known.
    pub outcome: Option<Result<(), InstallError>>,
}

pub struct InstallerModel {
    pub plan: PlanModel,
    pub stage: InstallStage,
    pub descriptor: Option<DescriptorModel>,
    pub outcome: Option<Result<(), ErrorModel>>,
}

impl View for Installer {
    type V = InstallerModel;

    open spec fn view(&self) -> InstallerModel {
        InstallerModel {
            plan: self.plan@,
            stage: self.stage,
            descriptor: match self.descriptor {
                Some(d) => Some(d@),
                None => None,
            },
            outcome: match self.outcome {
                Some(o) => Some(outcome_view(o)),
                None => None,
            },
        }
    }
}

/// The descriptor as registered: `Exec` names the installed package file, and the
/// sandbox is off if the package or the request says so.
pub open spec fn rewritten(d: DescriptorModel, p: PlanModel) -> DescriptorModel {
    DescriptorModel {
        exec_path: join_path(p.install_dir, p.file_name),
        no_sandbox: d.no_sandbox || p.no_sandbox,
        ..d
    }
}

pub open spec fn failure_message(ev: EventModel) -> Seq<char> {
    match ev {
        EventModel::Failed(m) => m,
        _ => seq![],
    }
}

/// Stop with `e`: through removing the unpack directory if it may exist, else at once.
pub open spec fn abort(st: InstallerModel, e: ErrorModel, cleanup: bool) -> (InstallerModel, ActionModel) {
    if cleanup {
        (InstallerModel { stage: InstallStage::Cleanup, outcome: Some(Err(e)), ..st }, ActionModel::RemoveScratch)
    } else {
        (InstallerModel { stage: InstallStage::Finished, outcome: Some(Err(e)), ..st }, ActionModel::Report(Err(e)))
    }
}

/// The next state and action of an install after `ev`. Each step goes on only on the
/// outcome it waits for; any other aborts all later steps. Making the package executable
/// and removing the unpack directory cannot fail the install.
pub open spec fn install_next(st: InstallerModel, ev: EventModel) -> (InstallerModel, ActionModel) {
    match st.stage {
        InstallStage::GrantPermission => (
            InstallerModel { stage: InstallStage::ExtractDescriptor, ..st },
            ActionModel::ExtractDescriptor,
        ),
        InstallStage::ExtractDescriptor => {
            if ev is Done {
                (InstallerModel { stage: InstallStage::ReadDescriptor, ..st }, ActionModel::ReadDescriptor)
            } else {
                abort(st, ErrorModel::Extraction(failure_message(ev)), false)
            }
        },
        InstallStage::ReadDescriptor => match ev {
            EventModel::DescriptorText(t) => match parsed(t, false) {
                Ok(d) => {
                    if d.name.len() > 0 {
                        (
                            InstallerModel {
                                stage: InstallStage::ExtractContent,
                                descriptor: Some(d),
                                ..st
                            },
                            ActionModel::ExtractContent,
                        )
                    } else {
                        abort(st, ErrorModel::Parse(ParseError::MissingRequiredField(RequiredField::Name)), true)
                    }
                },
                Err(e) => abort(st, ErrorModel::Parse(e), true),
            },
            _ => abort(st, ErrorModel::Extraction(failure_message(ev)), true),
        },
        InstallStage::ExtractContent => {
            if ev is Done {
                (InstallerModel { stage: InstallStage::InstallIcon, ..st }, ActionModel::InstallIcon)
            } else {
                abort(st, ErrorModel::Extraction(failure_message(ev)), true)
            }
        },
        InstallStage::InstallIcon => {
            if ev is Done {
                let d = rewritten(st.descriptor->Some_0, st.plan);
                (
                    InstallerModel { stage: InstallStage::PersistDescriptor, descriptor: Some(d), ..st },
                    ActionModel::PersistDescriptor { file_name: d.name + ".desktop"@, text: serialized(d) },
                )
            } else {
                abort(st, ErrorModel::Io(failure_message(ev)), true)
            }
        },
        InstallStage::PersistDescriptor => match ev {
            EventModel::Done => (
                InstallerModel { stage: InstallStage::InstallBinary, ..st },
                ActionModel::InstallBinary,
            ),
            EventModel::NameTaken => abort(st, ErrorModel::AlreadyInstalled, true),
            _ => abort(st, ErrorModel::Io(failure_message(ev)), true),
        },
        InstallStage::InstallBinary => {
            if ev is Done {
                (
                    InstallerModel { stage: InstallStage::Cleanup, outcome: Some(Ok(())), ..st },
                    ActionModel::RemoveScratch,
                )
            } else {
                abort(st, ErrorModel::Io(failure_message(ev)), true)
            }
        },
        InstallStage::Cleanup | InstallStage::Finished => (
            InstallerModel { stage: InstallStage::Finished, ..st },
            ActionModel::Report(st.outcome->Some_0),
        ),
    }
}

/// The text an install writes for its descriptor reads back, under a strict parse, as the
/// descriptor it registers, whenever that descriptor is well formed.
pub proof fn lemma_persisted_text_reads_back(st: InstallerModel)
    requires
        st.stage == InstallStage::InstallIcon,
        st.descriptor is Some,
        valid_descriptor(rewritten(st.descriptor->Some_0, st.plan)),
    ensures
        install_next(st, EventModel::Done).1 matches ActionModel::PersistDescriptor { text, .. } && parsed(
            text,
            true,
        ) == Ok::<DescriptorModel, ParseError>(rewritten(st.descriptor->Some_0, st.plan)),
{
    lemma_parse_serialized(rewritten(st.descriptor->Some_0, st.plan));
}

fn copy_error(e: &InstallError) -> (r: InstallError)
    ensures
        error_view(r) == error_view(*e),
{
    match e {
        InstallError::MissingInstallPath => InstallError::MissingInstallPath,
        InstallError::InvalidSourcePath => InstallError::InvalidSourcePath,
        InstallError::Extraction(m) => InstallError::Extraction(m.clone()),
        InstallError::Parse(p) => InstallError::Parse(*p),
        InstallError::AlreadyInstalled => InstallError::AlreadyInstalled,
        InstallError::Io(m) => InstallError::Io(m.clone()),
    }
}

fn copy_outcome(o: &Result<(), InstallError>) -> (r: Result<(), InstallError>)
    ensures
        outcome_view(r) == outcome_view(*o),
{
    match o {
        Ok(()) => Ok(()),
        Err(e) => Err(copy_error(e)),
    }
}

fn message_of(ev: InstallEvent) -> (r: String)
    ensures
        r@ == failure_message(event_view(ev)),
{
    match ev {
        InstallEvent::Failed(m) => m,
        _ => String::new(),
    }
}

impl Installer {
    /// The installer's own invariant: the descriptor is there once read, the outcome once known.
    pub open spec fn wf(&self) -> bool {
        &&& (self.stage == InstallStage::ExtractContent || self.stage == InstallStage::InstallIcon
            || self.stage == InstallStage::PersistDescriptor || self.stage == InstallStage::InstallBinary)
            ==> self.descriptor is Some
        &&& (self.stage == InstallStage::Cleanup || self.stage == InstallStage::Finished) ==> self.outcome is Some
    }

    /// An install of `plan`, and its first action.
    pub fn start(plan: InstallPlan) -> (r: (Installer, InstallAction))
        ensures
            r.0.wf(),
            r.0@ == (InstallerModel { plan: plan@, stage: InstallStage::GrantPermission, descriptor: None, outcome: None }),
            action_view(r.1) == ActionModel::GrantPermission,
    {
        (Installer { plan, stage: InstallStage::GrantPermission, descriptor: None, outcome: None }, InstallAction::GrantPermission)
    }

    /// Takes the outcome of the last action and returns the next one.
    pub fn step(&mut self, event: InstallEvent) -> (a: InstallAction)
        requires
            old(self).wf(),
        ensures
            final(self).wf(),
            (final(self)@, action_view(a)) == install_next(old(self)@, event_view(event)),
    {
        let ghost ev = event_view(event);
        match self.stage {
            InstallStage::GrantPermission => {
                self.stage = InstallStage::ExtractDescriptor;
                InstallAction::ExtractDescriptor
            },
            InstallStage::ExtractDescriptor => match event {
                InstallEvent::Done => {
                    self.stage = InstallStage::ReadDescriptor;
                    InstallAction::ReadDescriptor
                },
                _ => self.abort(InstallError::Extraction(message_of(event)), false),
            },
            InstallStage::ReadDescriptor => match event {
                InstallEvent::DescriptorText(t) => match LauncherDescriptor::parse(t.as_str(), false) {
                    Ok(d) => {
                        if d.name.as_str().unicode_len() > 0 {
                            self.stage = InstallStage::ExtractContent;
                            self.descriptor = Some(d);
                            InstallAction::ExtractContent
                        } else {
                            self.abort(InstallError::Parse(ParseError::MissingRequiredField(RequiredField::Name)), true)
                        }
                    },
                    Err(e) => self.abort(InstallError::Parse(e), true),
                },
                _ => self.abort(InstallError::Extraction(message_of(event)), true),
            },
            InstallStage::ExtractContent => match event {
                InstallEvent::Done => {
                    self.stage = InstallStage::InstallIcon;
                    InstallAction::InstallIcon
                },
                _ => self.abort(InstallError::Extraction(message_of(event)), true),
            },
            InstallStage::InstallIcon => match event {
                InstallEvent::Done => {
                    let mut d = self.descriptor.take().unwrap();
                    let exec_path = join(self.plan.install_dir.as_str(), self.plan.file_name.as_str());
                    d.set_exec(exec_path);
                    if self.plan.no_sandbox {
                        d.set_no_sandbox(true);
                    }
                    let file_name = descriptor_file_name(d.name.as_str());
                    let text = d.serialize();
                    self.descriptor = Some(d);
                    self.stage = InstallStage::PersistDescriptor;
                    InstallAction::PersistDescriptor { file_name, text }
                },
                _ => self.abort(InstallError::Io(message_of(event)), true),
            },
            InstallStage::PersistDescriptor => match event {
                InstallEvent::Done => {
                    self.stage = InstallStage::InstallBinary;
                    InstallAction::InstallBinary
                },
                InstallEvent::NameTaken => self.abort(InstallError::AlreadyInstalled, true),
                _ => self.abort(InstallError::Io(message_of(event)), true),
            },
            InstallStage::InstallBinary => match event {
                InstallEvent::Done => {
                    self.stage = InstallStage::Cleanup;
                    self.outcome = Some(Ok(()));
                    InstallAction::RemoveScratch
                },
                _ => self.abort(InstallError::Io(message_of(event)), true),
            },
            InstallStage::Cleanup | InstallStage::Finished => {
                self.stage = InstallStage::Finished;
                let o = match &self.outcome {
                    Some(o) => copy_outcome(o),
                    None => Ok(()),
                };
                InstallAction::Report(o)
            },
        }
    }

    fn abort(&mut self, e: InstallError, cleanup: bool) -> (a: InstallAction)
        ensures
            (final(self)@, action_view(a)) == abort(old(self)@, error_view(e), cleanup),
            final(self).wf(),
    {
        if cleanup {
            self.stage = InstallStage::Cleanup;
            self.outcome = Some(Err(e));
            InstallAction::RemoveScratch
        } else {
            self.stage = InstallStage::Finished;
            let r = Err(copy_error(&e));
            self.outcome = Some(Err(e));
            InstallAction::Report(r)
        }
    }
}

} // verus!
