//! The state and the rules of the drive client: the session it holds, how a
//! token refresh keeps the refresh token, the query strings and request
//! bodies it sends, and how answers map to errors. The requests themselves
//! are made by the caller.
use vstd::prelude::*;
use crate::errors::DriveError;
use crate::types::{File, FileList, FileUploadBody, FOLDER_MIME_TYPE};
use crate::versions::opt_view;

verus! {

/// Percent-encoding of a text, as `urlencoding::encode` gives it.
pub uninterp spec fn url_encoded(s: Seq<char>) -> Seq<char>;

/// Relies on `urlencoding::encode`: the result depends on the text alone,
/// and an empty text stays empty.
#[verifier::external_body]
fn url_encode(s: &str) -> (r: String)
    ensures
        r@ == url_encoded(s@),
        s@.len() == 0 ==> r@.len() == 0,
{
    urlencoding::encode(s).into_owned()
}

/// The fields asked for when listing for reconciliation.
pub const RECONCILE_FIELDS: &'static str = "files(id, md5Checksum, name, trashed, mimeType, parents, version)";

/// The fields asked for when one record is fetched by id.
pub const FILE_FIELDS: &'static str = "id, name, mimeType, parents, version";

/// Tokens of an authorized session.
#[derive(Clone, Debug)]
pub struct Session {
    pub access_token: String,
    pub refresh_token: Option<String>,
}

/// Which remote folder is synchronized.
#[derive(Clone, Debug)]
pub struct Config {
    pub dir: String,
}

/// The client's credentials and the session it holds.
#[derive(Clone, Debug)]
pub struct Client {
    client_id: String,
    client_secret: String,
    redirect_uri: String,
    auth: Option<Session>,
}

pub open spec fn session_view(s: Session) -> (Seq<char>, Option<Seq<char>>) {
    (s.access_token@, opt_view(s.refresh_token))
}

pub open spec fn opt_session_view(s: Option<Session>) -> Option<(Seq<char>, Option<Seq<char>>)> {
    match s {
        Some(x) => Some(session_view(x)),
        None => None,
    }
}

fn clone_session(s: &Session) -> (r: Session)
    ensures
        session_view(r) == session_view(*s),
{
    Session {
        access_token: s.access_token.clone(),
        refresh_token: crate::versions::clone_opt_string(&s.refresh_token),
    }
}

/// The consent address built from already encoded parts.
pub open spec fn authorization_url_spec(id: Seq<char>, redirect: Seq<char>, scope: Seq<char>) -> Seq<char> {
    "https://accounts.google.com/o/oauth2/v2/auth?client_id="@ + id + "&response_type=code&redirect_uri="@
        + redirect + "&scope="@ + scope + "&access_type=offline"@
}

/// The consent address for the already percent-encoded client id, redirect
/// address and scope.
pub fn authorization_url_from(id: &str, redirect: &str, scope: &str) -> (r: String)
    ensures
        r@ == authorization_url_spec(id@, redirect@, scope@),
{
    let mut r = String::from_str("https://accounts.google.com/o/oauth2/v2/auth?client_id=");
    r.append(id);
    r.append("&response_type=code&redirect_uri=");
    r.append(redirect);
    r.append("&scope=");
    r.append(scope);
    r.append("&access_type=offline");
    r
}

/// One form field of a token request.
pub open spec fn param(k: &str, v: Seq<char>) -> (Seq<char>, Seq<char>) {
    (k@, v)
}

pub open spec fn params_view(ps: Seq<(String, String)>) -> Seq<(Seq<char>, Seq<char>)> {
    ps.map_values(|p: (String, String)| (p.0@, p.1@))
}

pub open spec fn or_empty(o: Option<Seq<char>>) -> Seq<char> {
    match o {
        Some(s) => s,
        None => Seq::empty(),
    }
}

fn text_or_empty(o: Option<String>) -> (r: String)
    ensures
        r@ == or_empty(opt_view(o)),
{
    match o {
        Some(s) => s,
        None => String::new(),
    }
}

impl Client {
    pub closed spec fn id_view(&self) -> Seq<char> {
        self.client_id@
    }

    pub closed spec fn secret_view(&self) -> Seq<char> {
        self.client_secret@
    }

    pub closed spec fn redirect_view(&self) -> Seq<char> {
        self.redirect_uri@
    }

    pub closed spec fn session(&self) -> Option<(Seq<char>, Option<Seq<char>>)> {
        opt_session_view(self.auth)
    }

    /// A client without a session.
    pub fn new(client_id: String, client_secret: String, redirect_uri: String) -> (r: Client)
        ensures
            r.id_view() == client_id@,
            r.secret_view() == client_secret@,
            r.redirect_view() == redirect_uri@,
            r.session() is None,
    {
        Client { client_id, client_secret, redirect_uri, auth: None }
    }

    /// The address where the user grants access for `scope`.
    pub fn get_user_authorization_url(&self, scope: &str, redirect_uri: &str) -> (r: String)
        ensures
            r@ == authorization_url_spec(url_encoded(self.id_view()), url_encoded(redirect_uri@), url_encoded(scope@)),
    {
        let id = url_encode(self.client_id.as_str());
        let redirect = url_encode(redirect_uri);
        let scope = url_encode(scope);
        authorization_url_from(id.as_str(), redirect.as_str(), scope.as_str())
    }

    /// Holds the session `s` from now on.
    pub fn set_session(&mut self, s: Session)
        ensures
            final(self).session() == Some(session_view(s)),
            final(self).id_view() == old(self).id_view(),
            final(self).secret_view() == old(self).secret_view(),
            final(self).redirect_view() == old(self).redirect_view(),
    {
        self.auth = Some(s);
    }

    /// The bearer token to send; without a session every request is
    /// unauthorized.
    pub fn access_token(&self) -> (r: Result<String, DriveError>)
        ensures
            match self.session() {
                Some(s) => r matches Ok(t) && t@ == s.0,
                None => r == Err::<String, DriveError>(DriveError::Unauthorized),
            },
    {
        match &self.auth {
            Some(s) => Ok(s.access_token.clone()),
            None => Err(DriveError::Unauthorized),
        }
    }

    /// The form fields of a token request: a refresh with `refresh_token`,
    /// or an exchange of `auth_code`.
    pub fn token_params(&self, refresh: bool, auth_code: Option<String>, refresh_token: Option<String>) -> (r: Vec<(String, String)>)
        ensures
            params_view(r@) == seq![
                param("client_id", self.id_view()),
                param("client_secret", self.secret_view()),
                param("redirect_uri", self.redirect_view()),
            ] + if refresh {
                seq![
                    param("refresh_token", or_empty(opt_view(refresh_token))),
                    param("grant_type", "refresh_token"@),
                ]
            } else {
                seq![
                    param("code", or_empty(opt_view(auth_code))),
                    param("grant_type", "authorization_code"@),
                ]
            },
    {
        let mut r: Vec<(String, String)> = Vec::new();
        r.push((String::from_str("client_id"), self.client_id.clone()));
        r.push((String::from_str("client_secret"), self.client_secret.clone()));
        r.push((String::from_str("redirect_uri"), self.redirect_uri.clone()));
        if refresh {
            r.push((String::from_str("refresh_token"), text_or_empty(refresh_token)));
            r.push((String::from_str("grant_type"), String::from_str("refresh_token")));
        } else {
            r.push((String::from_str("code"), text_or_empty(auth_code)));
            r.push((String::from_str("grant_type"), String::from_str("authorization_code")));
        }
        let ghost want = seq![
            param("client_id", self.id_view()),
            param("client_secret", self.secret_view()),
            param("redirect_uri", self.redirect_view()),
        ] + if refresh {
            seq![
                param("refresh_token", or_empty(opt_view(refresh_token))),
                param("grant_type", "refresh_token"@),
            ]
        } else {
            seq![
                param("code", or_empty(opt_view(auth_code))),
                param("grant_type", "authorization_code"@),
            ]
        };
        assert(params_view(r@) =~= want);
        r
    }

    /// The refresh token to send; without one the refresh cannot be made and
    /// the client stays unauthorized.
    pub fn refresh_token_to_send(&self) -> (r: Result<String, DriveError>)
        ensures
            match self.session() {
                Some((_, Some(t))) => r matches Ok(x) && x@ == t,
                _ => r == Err::<String, DriveError>(DriveError::Unauthorized),
            },
    {
        match &self.auth {
            Some(s) => match &s.refresh_token {
                Some(t) => Ok(t.clone()),
                None => Err(DriveError::Unauthorized),
            },
            None => Err(DriveError::Unauthorized),
        }
    }

    /// Takes the session `new` that a refresh with `refresh_token` returned;
    /// the refresh token is kept, since the service does not send it again.
    pub fn accept_refreshed(&mut self, new: Session, refresh_token: String) -> (r: Session)
        ensures
            session_view(r) == (new.access_token@, Some(refresh_token@)),
            final(self).session() == Some(session_view(r)),
            final(self).id_view() == old(self).id_view(),
            final(self).secret_view() == old(self).secret_view(),
            final(self).redirect_view() == old(self).redirect_view(),
    {
        let s = Session { access_token: new.access_token, refresh_token: Some(refresh_token) };
        let r = clone_session(&s);
        self.auth = Some(s);
        r
    }

    /// Takes the session that an authorization code was exchanged for.
    pub fn accept_authorized(&mut self, s: Session) -> (r: Session)
        ensures
            session_view(r) == session_view(s),
            final(self).session() == Some(session_view(s)),
            final(self).id_view() == old(self).id_view(),
            final(self).secret_view() == old(self).secret_view(),
            final(self).redirect_view() == old(self).redirect_view(),
    {
        let r = clone_session(&s);
        self.auth = Some(s);
        r
    }
}

/// The error that an HTTP status means for any request: 401 is
/// `Unauthorized`.
pub fn status_error(status: u16) -> (r: Option<DriveError>)
    ensures
        r == if status == 401 { Some(DriveError::Unauthorized) } else { None::<DriveError> },
{
    if status == 401 {
        Some(DriveError::Unauthorized)
    } else {
        None
    }
}

/// The error that an HTTP status means for a request of one object: 401 is
/// `Unauthorized`, 404 is `NotFound`.
pub fn lookup_status_error(status: u16) -> (r: Option<DriveError>)
    ensures
        r == if status == 401 {
            Some(DriveError::Unauthorized)
        } else if status == 404 {
            Some(DriveError::NotFound)
        } else {
            None::<DriveError>
        },
{
    if status == 401 {
        Some(DriveError::Unauthorized)
    } else if status == 404 {
        Some(DriveError::NotFound)
    } else {
        None
    }
}

/// Whether the content step of an upload succeeded: 200 or 201.
pub fn upload_succeeded(status: u16) -> (r: bool)
    ensures
        r == (status == 200 || status == 201),
{
    status == 200 || status == 201
}

/// The answer to a request of one object: not found is no object, not an
/// error.
pub fn found_or_none(r: Result<File, DriveError>) -> (out: Result<Option<File>, DriveError>)
    ensures
        match r {
            Ok(f) => out matches Ok(Some(g)) && g@ == f@,
            Err(DriveError::NotFound) => out matches Ok(None),
            Err(e) => out == Err::<Option<File>, DriveError>(e),
        },
{
    match r {
        Ok(f) => Ok(Some(f)),
        Err(DriveError::NotFound) => Ok(None),
        Err(e) => Err(e),
    }
}

/// The first record of a listing, if any.
pub fn first_match(list: FileList) -> (r: Option<File>)
    ensures
        list.files@.len() == 0 ==> r is None,
        list.files@.len() > 0 ==> (r matches Some(f) && f@ == list.files@[0]@),
{
    let mut files = list.files;
    if files.len() == 0 {
        None
    } else {
        Some(files.swap_remove(0))
    }
}

/// The query for objects named `name` under `parent_id`.
pub open spec fn by_name_query_spec(name: Seq<char>, parent_id: Seq<char>) -> Seq<char> {
    "name = '"@ + name + "' and '"@ + parent_id + "' in parents"@
}

/// The query for objects named `name` under `parent_id` (none: the empty id).
pub fn by_name_query(name: &str, parent_id: Option<String>) -> (r: String)
    ensures
        r@ == by_name_query_spec(name@, or_empty(opt_view(parent_id))),
{
    let p = text_or_empty(parent_id);
    let mut r = String::from_str("name = '");
    r.append(name);
    r.append("' and '");
    r.append(p.as_str());
    r.append("' in parents");
    r
}

/// The query for the children of `id`.
pub fn children_query(id: &str) -> (r: String)
    ensures
        r@ == "'"@ + id@ + "' in parents"@,
{
    let mut r = String::from_str("'");
    r.append(id);
    r.append("' in parents");
    r
}

/// The query for objects named `name` anywhere.
pub fn name_query(name: &str) -> (r: String)
    ensures
        r@ == "name = '"@ + name@ + "'"@,
{
    let mut r = String::from_str("name = '");
    r.append(name);
    r.append("'");
    r
}

/// The metadata of a folder to create.
pub fn folder_body(name: &str, parent_id: String) -> (r: FileUploadBody)
    ensures
        r.name@ == name@,
        r.parents@.len() == 1 && r.parents@[0]@ == parent_id@,
        opt_view(r.mime_type) == Some(FOLDER_MIME_TYPE@),
{
    let mut parents: Vec<String> = Vec::new();
    parents.push(parent_id);
    FileUploadBody { name: name.to_string(), parents, mime_type: Some(FOLDER_MIME_TYPE.to_string()) }
}

/// The metadata of a file to upload.
pub fn file_body(name: &str, parent_id: String) -> (r: FileUploadBody)
    ensures
        r.name@ == name@,
        r.parents@.len() == 1 && r.parents@[0]@ == parent_id@,
        r.mime_type is None,
{
    let mut parents: Vec<String> = Vec::new();
    parents.push(parent_id);
    FileUploadBody { name: name.to_string(), parents, mime_type: None }
}

} // verus!
