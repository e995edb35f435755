//! The update checker's status and its transitions. The release lookup,
//! the download and the file replacement run on worker threads in the
//! application; what the status becomes around them is decided here. `I`
//! is the release description the updater hands back.
use vstd::prelude::*;

verus! {

/// Where the update check stands.
#[derive(Clone, Debug)]
pub enum UpdateStatus<I> {
    Idle,
    Checking,
    UpToDate,
    Available(I),
    Downloading,
    Failed(I),
}

/// What a release lookup answered.
pub enum CheckResult<I> {
    /// A newer release exists.
    Found(I),
    /// The running version is the latest.
    NoUpdate,
    /// The lookup failed.
    Error,
}

/// A check or a download is under way.
pub open spec fn is_busy<I>(status: UpdateStatus<I>) -> bool {
    status is Checking || status is Downloading
}

/// Starts a check unless one, or a download, is already under way; answers
/// whether it started (the caller then looks the release up).
pub fn start_check<I>(status: &mut UpdateStatus<I>) -> (r: bool)
    ensures
        r == !is_busy(*old(status)),
        r ==> *final(status) is Checking,
        !r ==> *final(status) == *old(status),
{
    match status {
        UpdateStatus::Checking | UpdateStatus::Downloading => {
            return false;
        },
        _ => {},
    }
    *status = UpdateStatus::Checking;
    true
}

/// The status once the lookup answered: a newer release is available,
/// the version is up to date, or (on failure) back to idle.
pub fn check_finished<I>(result: CheckResult<I>) -> (r: UpdateStatus<I>)
    ensures
        match result {
            CheckResult::Found(info) => r == UpdateStatus::Available(info),
            CheckResult::NoUpdate => r is UpToDate,
            CheckResult::Error => r is Idle,
        },
{
    match result {
        CheckResult::Found(info) => UpdateStatus::Available(info),
        CheckResult::NoUpdate => UpdateStatus::UpToDate,
        CheckResult::Error => UpdateStatus::Idle,
    }
}

/// Starts downloading the available (or previously failed) release: the
/// status becomes `Downloading` and the release is handed out. In any
/// other state nothing happens.
pub fn start_download<I>(status: &mut UpdateStatus<I>) -> (r: Option<I>)
    ensures
        match *old(status) {
            UpdateStatus::Available(info) => r == Some(info) && *final(status) is Downloading,
            UpdateStatus::Failed(info) => r == Some(info) && *final(status) is Downloading,
            _ => r.is_none() && *final(status) == *old(status),
        },
{
    match status {
        UpdateStatus::Available(_) | UpdateStatus::Failed(_) => {},
        _ => {
            return None;
        },
    }
    let mut taken = UpdateStatus::Downloading;
    std::mem::swap(status, &mut taken);
    match taken {
        UpdateStatus::Available(info) => Some(info),
        UpdateStatus::Failed(info) => Some(info),
        _ => None,
    }
}

/// The status after a failed download or installation: the release can
/// be retried.
pub fn download_failed<I>(info: I) -> (r: UpdateStatus<I>)
    ensures
        r == UpdateStatus::Failed(info),
{
    UpdateStatus::Failed(info)
}

/// The footer button's label for a status.
pub open spec fn footer_label_spec<I>(status: UpdateStatus<I>) -> Seq<char> {
    match status {
        UpdateStatus::Checking => "Checking"@,
        UpdateStatus::Downloading => "Updating"@,
        UpdateStatus::UpToDate => "Up to date"@,
        UpdateStatus::Available(_) => "Update"@,
        UpdateStatus::Failed(_) => "Retry"@,
        UpdateStatus::Idle => "Update"@,
    }
}

/// See `footer_label_spec`.
pub fn footer_update_label<I>(status: &UpdateStatus<I>) -> (r: &'static str)
    ensures
        r@ == footer_label_spec(*status),
{
    match status {
        UpdateStatus::Checking => "Checking",
        UpdateStatus::Downloading => "Updating",
        UpdateStatus::UpToDate => "Up to date",
        UpdateStatus::Available(_) => "Update",
        UpdateStatus::Failed(_) => "Retry",
        UpdateStatus::Idle => "Update",
    }
}

/// The footer button is drawn in the event colour while a release waits.
pub fn update_needs_attention<I>(status: &UpdateStatus<I>) -> (r: bool)
    ensures
        r == (*status is Available || *status is Failed),
{
    match status {
        UpdateStatus::Available(_) | UpdateStatus::Failed(_) => true,
        _ => false,
    }
}

/// The About window's update button label (in Persian) for a status.
pub open spec fn about_label_spec<I>(status: UpdateStatus<I>) -> Seq<char> {
    match status {
        UpdateStatus::Checking => "در حال بررسی…"@,
        UpdateStatus::Downloading => "در حال بروزرسانی…"@,
        UpdateStatus::UpToDate => "برنامه بروز است"@,
        UpdateStatus::Available(_) => "دریافت نسخه جدید"@,
        UpdateStatus::Failed(_) => "تلاش دوباره برای بروزرسانی"@,
        UpdateStatus::Idle => "بررسی بروزرسانی"@,
    }
}

/// See `about_label_spec`.
pub fn about_update_label<I>(status: &UpdateStatus<I>) -> (r: &'static str)
    ensures
        r@ == about_label_spec(*status),
{
    match status {
        UpdateStatus::Checking => "در حال بررسی…",
        UpdateStatus::Downloading => "در حال بروزرسانی…",
        UpdateStatus::UpToDate => "برنامه بروز است",
        UpdateStatus::Available(_) => "دریافت نسخه جدید",
        UpdateStatus::Failed(_) => "تلاش دوباره برای بروزرسانی",
        UpdateStatus::Idle => "بررسی بروزرسانی",
    }
}

} // verus!
