use vstd::prelude::*;
use vstd::string::StringExecFns;
use crate::format::CaptureError;

verus! {

/// Registry of the one capture that may run: holds the running worker's
/// handle, or nothing.
pub struct CaptureRegistry<T> {
    active: Option<T>,
}

/// Registry content after a start request that would install `worker`: a
/// running capture stays as it is.
pub open spec fn after_start<T>(s: Option<T>, worker: T) -> Option<T> {
    if s is Some {
        s
    } else {
        Some(worker)
    }
}

impl<T> View for CaptureRegistry<T> {
    type V = Option<T>;

    closed spec fn view(&self) -> Option<T> {
        self.active
    }
}

impl<T> CaptureRegistry<T> {
    pub fn new() -> (r: CaptureRegistry<T>)
        ensures
            r@ is None,
    {
        CaptureRegistry { active: None }
    }

    pub fn is_active(&self) -> (b: bool)
        ensures
            b == self@ is Some,
    {
        self.active.is_some()
    }

    /// Installs `worker` unless a capture is already running. Returns whether
    /// it was installed; either way the request succeeds.
    pub fn start(&mut self, worker: T) -> (installed: bool)
        ensures
            installed == old(self)@ is None,
            final(self)@ == after_start(old(self)@, worker),
    {
        if self.active.is_some() {
            false
        } else {
            self.active = Some(worker);
            true
        }
    }

    /// Removes the running worker's handle, if any, so that it can be told
    /// to stop. With nothing running it does nothing.
    pub fn stop(&mut self) -> (worker: Option<T>)
        ensures
            worker == old(self)@,
            final(self)@ is None,
    {
        self.active.take()
    }
}

/// Two start requests without a stop between them leave the first worker as
/// the only one; two stop requests leave the same empty registry as one.
pub proof fn law_start_and_stop_are_idempotent<T>(s: Option<T>, w1: T, w2: T)
    ensures
        after_start(after_start(s, w1), w2) == after_start(s, w1),
        after_start(s, w1) is Some,
{
}

/// Where the capture file goes.
pub enum OutputLocation {
    /// The path the caller gave.
    Given(String),
    /// The default file name inside `dir`, or inside its `Downloads`
    /// subfolder when `downloads_subfolder` is set.
    Default { dir: String, downloads_subfolder: bool },
}

/// Picks the output location: the caller's path, else the download
/// directory, else the home directory's `Downloads` folder, else the
/// application's local data directory.
pub fn resolve_output(
    given: Option<String>,
    download_dir: Option<String>,
    home_dir: Option<String>,
    local_data_dir: Option<String>,
) -> (r: Result<OutputLocation, CaptureError>)
    ensures
        given is Some ==> (r matches Ok(OutputLocation::Given(p)) && p@ == given->Some_0@),
        given is None && download_dir is Some ==> (r matches Ok(
            OutputLocation::Default { dir, downloads_subfolder },
        ) && dir@ == download_dir->Some_0@ && !downloads_subfolder),
        given is None && download_dir is None && home_dir is Some ==> (r matches Ok(
            OutputLocation::Default { dir, downloads_subfolder },
        ) && dir@ == home_dir->Some_0@ && downloads_subfolder),
        given is None && download_dir is None && home_dir is None && local_data_dir is Some ==> (
        r matches Ok(OutputLocation::Default { dir, downloads_subfolder }) && dir@
            == local_data_dir->Some_0@ && !downloads_subfolder),
        r is Err <==> (given is None && download_dir is None && home_dir is None
            && local_data_dir is None),
        r is Err ==> r == Err::<OutputLocation, CaptureError>(CaptureError::NoOutputDirectory),
{
    match given {
        Some(p) => Ok(OutputLocation::Given(p)),
        None => match download_dir {
            Some(d) => Ok(OutputLocation::Default { dir: d, downloads_subfolder: false }),
            None => match home_dir {
                Some(h) => Ok(OutputLocation::Default { dir: h, downloads_subfolder: true }),
                None => match local_data_dir {
                    Some(l) => Ok(OutputLocation::Default { dir: l, downloads_subfolder: false }),
                    None => Err(CaptureError::NoOutputDirectory),
                },
            },
        },
    }
}

/// A request for a speech service token.
pub struct TokenRequest {
    pub url: String,
    pub key: String,
}

/// Address of the token endpoint for a service region.
pub open spec fn token_url_spec(region: Seq<char>) -> Seq<char> {
    "https://"@ + region + ".api.cognitive.microsoft.com/sts/v1.0/issueToken"@
}

/// Builds the token request from the two configured credentials; the key is
/// checked first.
pub fn token_request(key: Option<String>, region: Option<String>) -> (r: Result<
    TokenRequest,
    CaptureError,
>)
    ensures
        key is None ==> r == Err::<TokenRequest, CaptureError>(CaptureError::MissingKey),
        key is Some && region is None ==> r == Err::<TokenRequest, CaptureError>(
            CaptureError::MissingRegion,
        ),
        key is Some && region is Some ==> (r matches Ok(t) && t.key@ == key->Some_0@ && t.url@
            == token_url_spec(region->Some_0@)),
{
    let key = match key {
        Some(k) => k,
        None => return Err(CaptureError::MissingKey),
    };
    let region = match region {
        Some(r) => r,
        None => return Err(CaptureError::MissingRegion),
    };
    let url = String::from_str("https://").concat(region.as_str()).concat(
        ".api.cognitive.microsoft.com/sts/v1.0/issueToken",
    );
    proof {
        reveal_strlit("https://");
        reveal_strlit(".api.cognitive.microsoft.com/sts/v1.0/issueToken");
    }
    Ok(TokenRequest { url, key })
}

} // verus!
