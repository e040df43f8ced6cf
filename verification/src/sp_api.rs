//! Super Productivity's local REST API: where its token lives, which token
//! is used, and what its replies mean.
use vstd::prelude::*;
use crate::config::opt_view;
use crate::json::{
    doc_of, doc_of_text, json_document, member_bool, member_bool_of, member_doc, member_doc_of, member_items,
    member_items_of, member_text, member_text_of, opt_text, parse_json,
};
use crate::processor::texts;
use crate::text::{eq_str, join_path, join_path_text, join_strings, join_texts, lowercase, to_lowercase, trim_str, trim_text};
use crate::types::{ProcessedVideo, SpTask};

verus! {

/// Where the token file lives under the home directory: the Flatpak
/// install first, then a native or AppImage install.
pub open spec fn token_paths_text(home: Seq<char>) -> Seq<Seq<char>> {
    seq![
        join_path_text(home, ".var/app/com.super_productivity.SuperProductivity/config/superProductivity/local-rest-api-token"@),
        join_path_text(home, ".config/superProductivity/local-rest-api-token"@),
    ]
}

/// The places where Super Productivity keeps its local API token.
pub fn token_paths(home: &str) -> (res: Vec<String>)
    ensures
        res@.map_values(|s: String| s@) == token_paths_text(home@),
{
    let mut res: Vec<String> = Vec::new();
    res.push(join_path(home, ".var/app/com.super_productivity.SuperProductivity/config/superProductivity/local-rest-api-token"));
    res.push(join_path(home, ".config/superProductivity/local-rest-api-token"));
    assert(res@.map_values(|s: String| s@) == token_paths_text(home@));
    res
}

/// The first readable file whose content is not blank, trimmed: `contents`
/// holds the content of each candidate file, `None` where it could not be read.
pub open spec fn first_token_text(contents: Seq<Option<Seq<char>>>) -> Option<Seq<char>>
    decreases contents.len(),
{
    if contents.len() == 0 {
        None
    } else {
        match contents[0] {
            Some(c) if trim_text(c).len() > 0 => Some(trim_text(c)),
            _ => first_token_text(contents.drop_first()),
        }
    }
}

/// The token found in the candidate files' `contents`.
pub fn first_token(contents: &Vec<Option<String>>) -> (res: Option<String>)
    ensures
        opt_text(res) == first_token_text(contents@.map_values(|o: Option<String>| opt_text(o))),
{
    let ghost all = contents@.map_values(|o: Option<String>| opt_text(o));
    let mut i: usize = 0;
    assert(all.skip(0) == all);
    while i < contents.len()
        invariant
            i <= contents@.len(),
            all == contents@.map_values(|o: Option<String>| opt_text(o)),
            first_token_text(all.skip(i as int)) == first_token_text(all),
        decreases contents@.len() - i,
    {
        assert(all.skip(i as int)[0] == opt_text(contents@[i as int]));
        assert(all.skip(i as int).drop_first() == all.skip(i + 1));
        match &contents[i] {
            Some(c) => {
                let t = trim_str(c.as_str());
                if t.as_str().unicode_len() > 0 {
                    return Some(t);
                }
            },
            None => {},
        }
        i += 1;
    }
    assert(all.skip(i as int).len() == 0);
    None
}

/// The token to use: `SP_API_TOKEN` (`env`) when it is set and not blank,
/// trimmed; else the first non-blank token file.
pub open spec fn chosen_token_text(env: Option<Seq<char>>, contents: Seq<Option<Seq<char>>>) -> Option<Seq<char>> {
    match env {
        Some(t) if trim_text(t).len() > 0 => Some(trim_text(t)),
        _ => first_token_text(contents),
    }
}

/// The token to use: the environment's when set and not blank, else the
/// first non-blank token file (`contents` as in `first_token`).
pub fn choose_token(env: Option<&str>, contents: &Vec<Option<String>>) -> (res: Option<String>)
    ensures
        opt_text(res) == chosen_token_text(
            match env {
                Some(t) => Some(t@),
                None => None,
            },
            contents@.map_values(|o: Option<String>| opt_text(o)),
        ),
{
    match token_from_env(env) {
        Some(t) => Some(t),
        None => first_token(contents),
    }
}

/// The token given by the environment variable, when set and not blank.
pub fn token_from_env(env: Option<&str>) -> (res: Option<String>)
    ensures
        opt_text(res) == match env {
            Some(t) if trim_text(t@).len() > 0 => Some(trim_text(t@)),
            _ => None::<Seq<char>>,
        },
{
    match env {
        Some(t) => {
            let trimmed = trim_str(t);
            if trimmed.as_str().unicode_len() > 0 {
                Some(trimmed)
            } else {
                None
            }
        },
        None => None,
    }
}

/// The address of the local API.
pub open spec fn sp_base_url() -> Seq<char> {
    "http://127.0.0.1:3876"@
}

/// The Super Productivity API client's settings: its address, and whether a
/// token was found.
pub struct SpClient {
    pub base_url: String,
    pub has_token: bool,
}

impl SpClient {
    /// A client for the local API at 127.0.0.1:3876.
    pub fn new(has_token: bool) -> (res: Self)
        ensures
            res.base_url@ == sp_base_url(),
            res.has_token == has_token,
    {
        SpClient { base_url: String::from_str("http://127.0.0.1:3876"), has_token }
    }

    /// `base_url` + `route`.
    pub fn url(&self, route: &str) -> (res: String)
        ensures
            res@ == self.base_url@ + route@,
    {
        let mut u = self.base_url.clone();
        u.append(route);
        u
    }

    /// The explanation for a 401: a stale token, or none found (naming the
    /// first place searched, `token_path`).
    pub open spec fn auth_hint_text(self, token_path: Seq<char>) -> Seq<char> {
        if self.has_token {
            "el token no fue aceptado — si lo regeneraste en SP, se relee solo de "@ + token_path
        } else {
            "no encontré el token de la API de SP (busqué en "@ + token_path
                + " y en SP_API_TOKEN). Habilitá la API en Settings → Misc y volvé a intentar"@
        }
    }

    /// The explanation for a 401.
    pub fn auth_hint(&self, token_path: &str) -> (res: String)
        ensures
            res@ == self.auth_hint_text(token_path@),
    {
        if self.has_token {
            let mut s = String::from_str("el token no fue aceptado — si lo regeneraste en SP, se relee solo de ");
            s.append(token_path);
            s
        } else {
            let mut s = String::from_str("no encontré el token de la API de SP (busqué en ");
            s.append(token_path);
            s.append(" y en SP_API_TOKEN). Habilitá la API en Settings → Misc y volvé a intentar");
            s
        }
    }

    /// What a reply to "create task" means: the new task's id ("unknown"
    /// when absent) when `ok`; else an error, a 401 explained by the hint
    /// when the error code is `UNAUTHORIZED`, otherwise the API's message
    /// ("unknown" when absent).
    pub fn task_reply(
        &self,
        ok: bool,
        id: Option<String>,
        error_message: Option<String>,
        error_code: Option<String>,
        token_path: &str,
    ) -> (res: Result<String, String>)
        ensures
            match res {
                Ok(t) => ok && t@ == crate::config::text_or(id, "unknown"@),
                Err(e) => !ok && e@ == if opt_view(error_code) == Some("UNAUTHORIZED"@) {
                    "SP API 401: "@ + self.auth_hint_text(token_path@)
                } else {
                    "SP API error: "@ + crate::config::text_or(error_message, "unknown"@)
                },
            },
    {
        if ok {
            return Ok(match id {
                Some(i) => i,
                None => String::from_str("unknown"),
            });
        }
        let unauthorized = match &error_code {
            Some(c) => eq_str(c.as_str(), "UNAUTHORIZED"),
            None => false,
        };
        if unauthorized {
            let mut e = String::from_str("SP API 401: ");
            e.append(self.auth_hint(token_path).as_str());
            Err(e)
        } else {
            let mut e = String::from_str("SP API error: ");
            match error_message {
                Some(m) => e.append(m.as_str()),
                None => e.append("unknown"),
            }
            Err(e)
        }
    }

    /// The error for a failed "list projects" reply: a 401 explained by the
    /// hint when the code is `UNAUTHORIZED`, else the API's message.
    pub fn projects_error(&self, error_message: Option<String>, error_code: Option<String>, token_path: &str) -> (res: String)
        ensures
            res@ == if opt_view(error_code) == Some("UNAUTHORIZED"@) {
                "SP API 401 listando proyectos: "@ + self.auth_hint_text(token_path@)
            } else {
                "SP API error listing projects: "@ + crate::config::text_or(error_message, "unknown"@)
            },
    {
        let unauthorized = match &error_code {
            Some(c) => eq_str(c.as_str(), "UNAUTHORIZED"),
            None => false,
        };
        if unauthorized {
            let mut e = String::from_str("SP API 401 listando proyectos: ");
            e.append(self.auth_hint(token_path).as_str());
            e
        } else {
            let mut e = String::from_str("SP API error listing projects: ");
            match error_message {
                Some(m) => e.append(m.as_str()),
                None => e.append("unknown"),
            }
            e
        }
    }
    /// What a reply to "create task" means, from its flags and fields (see
    /// `task_reply`).
    pub open spec fn task_reply_text(
        self,
        ok: bool,
        id: Option<Seq<char>>,
        error_message: Option<Seq<char>>,
        error_code: Option<Seq<char>>,
        token_path: Seq<char>,
    ) -> Result<Seq<char>, Seq<char>> {
        if ok {
            Ok(
                match id {
                    Some(i) => i,
                    None => "unknown"@,
                },
            )
        } else if error_code == Some("UNAUTHORIZED"@) {
            Err("SP API 401: "@ + self.auth_hint_text(token_path))
        } else {
            Err(
                "SP API error: "@ + match error_message {
                    Some(m) => m,
                    None => "unknown"@,
                },
            )
        }
    }

    /// Reads the body of a reply to "create task": `ok`, `data.id`,
    /// `error.message` and `error.code`, then as `task_reply`; an error when
    /// the body is not JSON.
    pub fn task_reply_of(&self, body: &str, token_path: &str) -> (res: Result<String, String>)
        ensures
            match json_document(body@) {
                None => res matches Err(e) && e@ == "Failed to parse SP response"@,
                Some(d) => result_text(res) == self.task_reply_text(
                    member_bool(d, "ok"@) == Some(true),
                    member_text(member_doc(d, "data"@), "id"@),
                    member_text(member_doc(d, "error"@), "message"@),
                    member_text(member_doc(d, "error"@), "code"@),
                    token_path@,
                ),
            },
    {
        let doc = match parse_json(body) {
            Some(d) => d,
            None => return Err(String::from_str("Failed to parse SP response")),
        };
        let ok = match member_bool_of(&doc, "ok") {
            Some(b) => b,
            None => false,
        };
        let data = member_doc_of(&doc, "data");
        let error = member_doc_of(&doc, "error");
        self.task_reply(
            ok,
            member_text_of(&data, "id"),
            member_text_of(&error, "message"),
            member_text_of(&error, "code"),
            token_path,
        )
    }

    /// Reads the body of a reply to "list projects": each element of `data`
    /// as a project (its `title` and `id` where they are strings) when `ok`;
    /// otherwise the error `projects_error` gives for `error.message` and
    /// `error.code`; an error too when the body is not JSON.
    pub fn projects_reply_of(&self, body: &str, token_path: &str) -> (res: Result<Vec<SpProject>, String>)
        ensures
            match json_document(body@) {
                None => res matches Err(e) && e@ == "Failed to parse SP projects response"@,
                Some(d) => if member_bool(d, "ok"@) == Some(true) {
                    res matches Ok(ps) && ps@.len() == member_items(d, "data"@).len() && forall|i: int|
                        0 <= i < ps@.len() ==> project_of(#[trigger] ps@[i], member_items(d, "data"@)[i])
                } else {
                    res matches Err(e) && e@ == (if member_text(member_doc(d, "error"@), "code"@) == Some(
                        "UNAUTHORIZED"@,
                    ) {
                        "SP API 401 listando proyectos: "@ + self.auth_hint_text(token_path@)
                    } else {
                        "SP API error listing projects: "@ + match member_text(member_doc(d, "error"@), "message"@) {
                            Some(m) => m,
                            None => "unknown"@,
                        }
                    })
                },
            },
    {
        let doc = match parse_json(body) {
            Some(d) => d,
            None => return Err(String::from_str("Failed to parse SP projects response")),
        };
        let ok = match member_bool_of(&doc, "ok") {
            Some(b) => b,
            None => false,
        };
        if !ok {
            let error = member_doc_of(&doc, "error");
            return Err(self.projects_error(member_text_of(&error, "message"), member_text_of(&error, "code"), token_path));
        }
        let items = member_items_of(&doc, "data");
        let ghost raws = items@.map_values(|s: String| s@);
        let mut out: Vec<SpProject> = Vec::new();
        for i in 0..items.len()
            invariant
                raws == items@.map_values(|s: String| s@),
                out@.len() == i,
                forall|k: int| 0 <= k < i ==> project_of(#[trigger] out@[k], raws[k]),
        {
            let p = doc_of_text(items[i].as_str());
            out.push(SpProject { title: member_text_of(&p, "title"), id: member_text_of(&p, "id") });
        }
        Ok(out)
    }
}

/// The view of a result of texts.
pub open spec fn result_text(r: Result<String, String>) -> Result<Seq<char>, Seq<char>> {
    match r {
        Ok(t) => Ok(t@),
        Err(e) => Err(e@),
    }
}

/// `p` is the project an element of the projects list (JSON text) gives.
pub open spec fn project_of(p: SpProject, raw: Seq<char>) -> bool {
    &&& opt_text(p.title) == member_text(doc_of(raw), "title"@)
    &&& opt_text(p.id) == member_text(doc_of(raw), "id"@)
}

/// Whether a health reply (its body) says the API is ready: `None` when the
/// body is not JSON, else whether its `ok` member is `true`.
pub open spec fn health_text(body: Seq<char>) -> Option<bool> {
    match json_document(body) {
        Some(d) => Some(member_bool(d, "ok"@) == Some(true)),
        None => None,
    }
}

/// Reads the body of a health reply.
pub fn health_reply_of(body: &str) -> (res: Option<bool>)
    ensures
        res == health_text(body@),
{
    match parse_json(body) {
        Some(d) => Some(
            match member_bool_of(&d, "ok") {
                Some(b) => b,
                None => false,
            },
        ),
        None => None,
    }
}

/// A project as listed: its title and id, each where the API gave a string.
#[derive(Clone, Debug)]
pub struct SpProject {
    pub title: Option<String>,
    pub id: Option<String>,
}

/// Project `p` has title matching `title` regardless of case, and an id.
pub open spec fn title_match(p: SpProject, title: Seq<char>) -> bool {
    &&& p.title matches Some(t) && lowercase(t@) == lowercase(title)
    &&& p.id is Some
}

/// Project `p`'s id is `title` itself.
pub open spec fn id_match(p: SpProject, title: Seq<char>) -> bool {
    p.id matches Some(i) && i@ == title
}

/// The id of the project named `title`: the first project whose title
/// matches regardless of case (and has an id), else the first project whose
/// id is `title` itself, else none.
pub open spec fn resolved_project_text(projects: Seq<SpProject>, title: Seq<char>) -> Option<Seq<char>> {
    if exists|i: int| 0 <= i < projects.len() && title_match(projects[i], title) {
        let i = choose|i: int|
            0 <= i < projects.len() && title_match(projects[i], title) && forall|j: int|
                0 <= j < i ==> !title_match(projects[j], title);
        opt_text(projects[i].id)
    } else if exists|i: int| 0 <= i < projects.len() && id_match(projects[i], title) {
        Some(title)
    } else {
        None
    }
}

/// Resolves a configured project name (or id) to a project id.
pub fn resolve_project(projects: &Vec<SpProject>, title: &str) -> (res: Option<String>)
    ensures
        opt_text(res) == resolved_project_text(projects@, title@),
{
    let search = to_lowercase(title);
    for i in 0..projects.len()
        invariant
            search@ == lowercase(title@),
            forall|j: int| 0 <= j < i ==> !title_match(projects@[j], title@),
    {
        match &projects[i].title {
            Some(t) => {
                let lt = to_lowercase(t.as_str());
                if eq_str(lt.as_str(), search.as_str()) {
                    match &projects[i].id {
                        Some(id) => {
                            proof {
                                assert(title_match(projects@[i as int], title@));
                                let k = choose|k: int|
                                    0 <= k < projects@.len() && title_match(projects@[k], title@) && forall|j: int|
                                        0 <= j < k ==> !title_match(projects@[j], title@);
                                if k > i {
                                }
                            }
                            return Some(id.clone());
                        },
                        None => {},
                    }
                }
            },
            None => {},
        }
    }
    for i in 0..projects.len()
        invariant
            forall|j: int| 0 <= j < projects@.len() ==> !title_match(projects@[j], title@),
            forall|j: int| 0 <= j < i ==> !id_match(projects@[j], title@),
    {
        match &projects[i].id {
            Some(id) => {
                if eq_str(id.as_str(), title) {
                    assert(id_match(projects@[i as int], title@));
                    return Some(String::from_str(title));
                }
            },
            None => {},
        }
    }
    None
}

/// The task made for a processed video in `project_id`: titled with the
/// video title, noting the summary, the key points and the link, tagged with
/// the video's tags.
pub open spec fn sp_task_notes_text(p: ProcessedVideo) -> Seq<char> {
    p.summary@ + "\n\n## Puntos clave\n"@ + join_texts(
        texts(p.key_points@).map_values(|k: Seq<char>| "- "@ + k),
        "\n"@,
    ) + "\n\n🔗 https://youtube.com/watch?v="@ + p.video.id@
}

/// The task made for a processed video.
pub fn sp_task_for(p: &ProcessedVideo, project_id: String) -> (res: SpTask)
    ensures
        res.title@ == "[📺] "@ + p.video.title@,
        res.notes@ == sp_task_notes_text(*p),
        res.project_id == project_id,
        texts(res.tag_ids@) == texts(p.classification.tags@),
{
    let mut title = String::from_str("[📺] ");
    title.append(p.video.title.as_str());
    let mut items: Vec<String> = Vec::new();
    for i in 0..p.key_points.len()
        invariant
            items@.len() == i,
            forall|k: int| 0 <= k < i ==> #[trigger] items@[k]@ == "- "@ + p.key_points@[k]@,
    {
        let mut item = String::from_str("- ");
        item.append(p.key_points[i].as_str());
        items.push(item);
    }
    assert(items@.map_values(|s: String| s@) == texts(p.key_points@).map_values(|k: Seq<char>| "- "@ + k));
    let mut notes = p.summary.clone();
    notes.append("\n\n## Puntos clave\n");
    notes.append(join_strings(&items, "\n").as_str());
    notes.append("\n\n🔗 https://youtube.com/watch?v=");
    notes.append(p.video.id.as_str());
    let mut tags: Vec<String> = Vec::new();
    for i in 0..p.classification.tags.len()
        invariant
            tags@.len() == i,
            forall|k: int| 0 <= k < i ==> #[trigger] tags@[k]@ == p.classification.tags@[k]@,
    {
        tags.push(p.classification.tags[i].clone());
    }
    assert(texts(tags@) == texts(p.classification.tags@));
    SpTask { title, notes, project_id, tag_ids: tags }
}

} // verus!
