//! Where a workspace keeps its surfaces and assets.
use vstd::prelude::*;

use crate::asset::{asset_naming, image_kind_spec, is_asset_record, not_image_message,
    AssetRecord, asset_file_name, sha256_hex};
use crate::ids::is_valid_id;
use crate::text::{chars_of, push_char, push_str};

verus! {

/// `PathBuf::push` on Unix: an absolute `part` replaces the path; otherwise
/// it is appended, with a `/` in between unless `base` is empty or already
/// ends with one.
pub open spec fn path_join(base: Seq<char>, part: Seq<char>) -> Seq<char> {
    if part.len() > 0 && part[0] == '/' {
        part
    } else if base.len() == 0 {
        part
    } else if base.last() == '/' {
        base + part
    } else {
        base + seq!['/'] + part
    }
}

/// Joins a path component onto a path.
pub fn join_path(base: &str, part: &str) -> (res: String)
    ensures
        res@ == path_join(base@, part@),
{
    let b = chars_of(base);
    let p = chars_of(part);
    if p.len() > 0 && p[0] == '/' {
        return String::from_str(part);
    }
    let mut out = String::from_str(base);
    if b.len() > 0 && b[b.len() - 1] != '/' {
        push_char(&mut out, '/');
    }
    push_str(&mut out, part);
    out
}

/// `s` with every `\` turned into `/`.
pub open spec fn forward_slashes(s: Seq<char>) -> Seq<char> {
    s.map_values(|c: char| if c == '\\' { '/' } else { c })
}

fn to_forward_slashes(s: &str) -> (res: String)
    ensures
        res@ == forward_slashes(s@),
{
    let cs = chars_of(s);
    let mut out = String::new();
    for i in 0..cs.len()
        invariant
            cs@ == s@,
            out@ == forward_slashes(cs@.take(i as int)),
    {
        let c = cs[i];
        push_char(&mut out, if c == '\\' { '/' } else { c });
        assert(forward_slashes(cs@.take(i + 1)) =~= forward_slashes(cs@.take(i as int)).push(
            if c == '\\' { '/' } else { c },
        ));
    }
    assert(cs@.take(cs@.len() as int) =~= cs@);
    out
}

/// The storage of one workspace: the `.canmore-medium` directory inside it.
pub struct Store {
    root: String,
}

/// The directory name a workspace keeps its surfaces and assets under.
pub open spec fn store_dir_name() -> Seq<char> {
    ".canmore-medium"@
}

impl Store {
    /// The storage directory.
    pub closed spec fn root_spec(&self) -> Seq<char> {
        self.root@
    }

    /// The storage of the workspace at `workspace`.
    pub fn at_workspace(workspace: &str) -> (res: Store)
        ensures
            res.root_spec() == path_join(workspace@, store_dir_name()),
    {
        Store { root: join_path(workspace, ".canmore-medium") }
    }

    /// The storage directory.
    pub fn root(&self) -> (res: &str)
        ensures
            res@ == self.root_spec(),
    {
        self.root.as_str()
    }

    /// The directory of surface files.
    pub fn surfaces_dir(&self) -> (res: String)
        ensures
            res@ == path_join(self.root_spec(), "surfaces"@),
    {
        join_path(self.root.as_str(), "surfaces")
    }

    /// The directory of asset copies.
    pub fn assets_dir(&self) -> (res: String)
        ensures
            res@ == path_join(self.root_spec(), "assets"@),
    {
        join_path(self.root.as_str(), "assets")
    }

    /// The file that lists registered assets, one JSON record per line.
    pub fn asset_index_path(&self) -> (res: String)
        ensures
            res@ == path_join(self.root_spec(), "assets.jsonl"@),
    {
        join_path(self.root.as_str(), "assets.jsonl")
    }

    fn surface_file(&self, id: &str, ext: &str) -> (res: String)
        ensures
            res@ == path_join(path_join(self.root_spec(), "surfaces"@), id@ + ext@),
    {
        let dir = self.surfaces_dir();
        let mut name = String::from_str(id);
        push_str(&mut name, ext);
        join_path(dir.as_str(), name.as_str())
    }

    /// The JSON file of surface `id`: `<root>/surfaces/<id>.json`.
    pub fn surface_json_path(&self, id: &str) -> (res: String)
        ensures
            res@ == path_join(path_join(self.root_spec(), "surfaces"@), id@ + ".json"@),
    {
        self.surface_file(id, ".json")
    }

    /// The HTML view of surface `id`: `<root>/surfaces/<id>.html`.
    pub fn surface_html_path(&self, id: &str) -> (res: String)
        ensures
            res@ == path_join(path_join(self.root_spec(), "surfaces"@), id@ + ".html"@),
    {
        self.surface_file(id, ".html")
    }

    /// Describes image `bytes` registered on surface `surface_id` as asset
    /// `asset_id`, and where the copy goes: `<root>/assets/<file name>`.
    /// Bytes that are not a recognised image are refused.
    pub fn register_asset(
        &self,
        surface_id: String,
        bytes: &[u8],
        asset_id: String,
        note: Option<String>,
        created_at: String,
    ) -> (res: Result<(AssetRecord, String), String>)
        ensures
            res is Err <==> image_kind_spec(bytes@) is None,
            res matches Err(e) ==> e@ == not_image_message(),
            res matches Ok((record, target)) ==> {
                let name = asset_file_name(asset_id@, image_kind_spec(bytes@)->Some_0.0);
                &&& is_asset_record(
                    surface_id,
                    bytes@,
                    asset_id,
                    note,
                    created_at,
                    forward_slashes(path_join(path_join(store_dir_name(), "assets"@), name)),
                    record,
                )
                &&& target@ == path_join(path_join(self.root_spec(), "assets"@), name)
            },
    {
        let (file_name, mime) = asset_naming(bytes, asset_id.as_str())?;
        let sha256 = sha256_hex(bytes);
        let relative = join_path(".canmore-medium", "assets");
        let relative = join_path(relative.as_str(), file_name.as_str());
        let stored_path = to_forward_slashes(relative.as_str());
        let target = join_path(self.assets_dir().as_str(), file_name.as_str());
        let byte_len = bytes.len() as u64;
        let record = AssetRecord {
            id: asset_id,
            surface_id,
            file_name,
            stored_path,
            byte_len,
            mime_type: String::from_str(mime),
            sha256,
            note,
            created_at,
        };
        Ok((record, target))
    }
}

/// A valid identifier names a file directly inside the surfaces directory:
/// its JSON and HTML paths are that directory, `/`, and the identifier with
/// its extension, so no identifier that `validate_id` accepts can reach
/// outside the directory.
pub proof fn lemma_surface_files_stay_in_dir(store: Store, id: Seq<char>)
    requires
        is_valid_id(id),
    ensures
        path_join(path_join(store.root_spec(), "surfaces"@), id + ".json"@) == path_join(
            store.root_spec(),
            "surfaces"@,
        ) + seq!['/'] + id + ".json"@,
        path_join(path_join(store.root_spec(), "surfaces"@), id + ".html"@) == path_join(
            store.root_spec(),
            "surfaces"@,
        ) + seq!['/'] + id + ".html"@,
{
    reveal_strlit("surfaces");
    let dir = path_join(store.root_spec(), "surfaces"@);
    assert(dir.len() > 0);
    assert(dir.last() == 's');
    assert((id + ".json"@)[0] == id[0]);
    assert((id + ".html"@)[0] == id[0]);
    assert(dir + seq!['/'] + (id + ".json"@) =~= dir + seq!['/'] + id + ".json"@);
    assert(dir + seq!['/'] + (id + ".html"@) =~= dir + seq!['/'] + id + ".html"@);
}

} // verus!
