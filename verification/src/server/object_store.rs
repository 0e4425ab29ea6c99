//! Object storage: the in-memory store, object keys, content checksums, and the
//! paths and URLs of the on-disk store.
use vstd::prelude::*;

use crate::keyed::{has_key, lookup, remove_key, removed, unique_keys, upsert, upserted, Keyed, find_key, lemma_lookup_at};
use crate::server::config::join_path;
use crate::server::digest::{hex_encode, hex_lower, sha256, sha256_of};
use crate::server::error::StoreError;
use crate::text::{
    chars_of, chars_of_string, contains, contains_exec, push_all, push_str, replace_all,
    replace_all_vec, string_from_chars, string_of, strip_leading, strip_leading_vec,
    strip_trailing, strip_trailing_vec, trim, trim_vec,
};

verus! {

/// `sha256:` followed by the lower-case hex SHA-256 of `bytes`.
pub open spec fn checksum_of(bytes: Seq<u8>) -> Seq<char> {
    "sha256:"@ + hex_lower(sha256_of(bytes))
}

/// The checksum recorded for stored content.
pub fn sha256_hex(bytes: &[u8]) -> (r: String)
    ensures
        r@ == checksum_of(bytes@),
{
    let digest = sha256(bytes);
    let hex = hex_encode(digest.as_slice());
    let mut out: Vec<char> = Vec::new();
    push_str(&mut out, "sha256:");
    let hc = chars_of_string(&hex);
    push_all(&mut out, &hc);
    string_from_chars(&out)
}

/// A key after trimming blanks and leading `/`.
pub open spec fn key_body(key: Seq<char>) -> Seq<char> {
    strip_leading(trim(key), '/')
}

/// A key is refused when nothing is left of it, or when it holds `..`.
pub open spec fn key_refused(key: Seq<char>) -> bool {
    key_body(key).len() == 0 || contains(key_body(key), ".."@)
}

/// The stored form of an accepted key: its body with `\` turned into `/`.
pub open spec fn safe_key(key: Seq<char>) -> Seq<char> {
    replace_all(key_body(key), seq!['\\'], seq!['/'])
}

pub fn sanitize_key(key: &str) -> (r: Result<String, StoreError>)
    ensures
        r is Err <==> key_refused(key@),
        r matches Ok(s) ==> s@ == safe_key(key@),
        r matches Err(e) ==> e matches StoreError::Validation(m) && m@ == "invalid object key"@,
{
    let kc = chars_of(key);
    let t = trim_vec(&kc);
    let body = strip_leading_vec(&t, '/');
    let dots = chars_of("..");
    if body.len() == 0 || contains_exec(&body, &dots) {
        return Err(StoreError::Validation(string_of("invalid object key")));
    }
    let from = vec!['\\'];
    let to = vec!['/'];
    assert(from@ =~= seq!['\\']);
    assert(to@ =~= seq!['/']);
    let out = replace_all_vec(&body, &from, &to);
    Ok(string_from_chars(&out))
}

/// One stored object.
#[derive(Debug)]
pub struct StoredObject {
    pub key: String,
    pub bytes: Vec<u8>,
}

impl Keyed for StoredObject {
    open spec fn key(&self) -> Seq<char> {
        self.key@
    }

    fn key_ref(&self) -> (r: &String) {
        &self.key
    }
}

/// The content stored under each key.
pub open spec fn contents(objects: Seq<StoredObject>) -> Map<Seq<char>, Seq<u8>> {
    Map::new(|k: Seq<char>| has_key(objects, k), |k: Seq<char>| lookup(objects, k).unwrap().bytes@)
}

/// Objects kept in memory, with URLs under a public base.
#[derive(Debug)]
pub struct MemoryObjectStore {
    objects: Vec<StoredObject>,
    public_base: String,
}

fn copy_bytes(b: &Vec<u8>) -> (r: Vec<u8>)
    ensures
        r@ == b@,
{
    let mut out: Vec<u8> = Vec::new();
    let mut i: usize = 0;
    while i < b.len()
        invariant
            i <= b.len(),
            out@ == b@.subrange(0, i as int),
        decreases b.len() - i,
    {
        out.push(b[i]);
        i += 1;
        assert(out@ =~= b@.subrange(0, i as int));
    }
    assert(b@.subrange(0, b@.len() as int) =~= b@);
    out
}

/// `<base without trailing />/<verb>/<key>`.
pub open spec fn store_url(base: Seq<char>, verb: Seq<char>, key: Seq<char>) -> Seq<char> {
    strip_trailing(base, '/') + "/"@ + verb + "/"@ + key
}

fn store_url_exec(base: &String, verb: &str, key: &str) -> (r: String)
    ensures
        r@ == store_url(base@, verb@, key@),
{
    let bc = chars_of_string(base);
    let mut out = strip_trailing_vec(&bc, '/');
    push_str(&mut out, "/");
    push_str(&mut out, verb);
    push_str(&mut out, "/");
    push_str(&mut out, key);
    string_from_chars(&out)
}

impl MemoryObjectStore {
    pub closed spec fn objects_view(&self) -> Seq<StoredObject> {
        self.objects@
    }

    pub closed spec fn public_base_view(&self) -> Seq<char> {
        self.public_base@
    }

    pub open spec fn wf(&self) -> bool {
        unique_keys(self.objects_view())
    }

    /// What the store holds, by key.
    pub open spec fn stored(&self) -> Map<Seq<char>, Seq<u8>> {
        contents(self.objects_view())
    }

    /// An empty store with URLs under `memory://objects`.
    pub fn new() -> (r: Self)
        ensures
            r.wf(),
            r.stored() == Map::<Seq<char>, Seq<u8>>::empty(),
            r.public_base_view() == "memory://objects"@,
    {
        let r = MemoryObjectStore { objects: Vec::new(), public_base: string_of("memory://objects") };
        assert(r.stored() =~= Map::<Seq<char>, Seq<u8>>::empty());
        r
    }

    /// An empty store with URLs under `public_base`.
    pub fn with_public_base(public_base: String) -> (r: Self)
        ensures
            r.wf(),
            r.stored() == Map::<Seq<char>, Seq<u8>>::empty(),
            r.public_base_view() == public_base@,
    {
        let r = MemoryObjectStore { objects: Vec::new(), public_base };
        assert(r.stored() =~= Map::<Seq<char>, Seq<u8>>::empty());
        r
    }

    /// Stores `bytes` under `key`, replacing what was there.
    pub fn put_bytes(&mut self, key: &str, bytes: Vec<u8>) -> (r: Result<(), StoreError>)
        requires
            old(self).wf(),
        ensures
            final(self).wf(),
            r is Ok,
            final(self).stored() == old(self).stored().insert(key@, bytes@),
            final(self).public_base_view() == old(self).public_base_view(),
    {
        let ghost b = bytes@;
        let obj = StoredObject { key: string_of(key), bytes };
        upsert(&mut self.objects, obj);
        proof {
            assert forall|k: Seq<char>| #[trigger] has_key(self.objects@, k) == (k == key@ || has_key(old(self).objects@, k)) by {
                if k != key@ {
                    assert(lookup(self.objects@, k) == lookup(old(self).objects@, k));
                }
            }
            assert(self.stored() =~= old(self).stored().insert(key@, b));
        }
        Ok(())
    }

    /// The bytes stored under `key`.
    pub fn get_bytes(&self, key: &str) -> (r: Result<Vec<u8>, StoreError>)
        requires
            self.wf(),
        ensures
            r matches Ok(v) ==> self.stored().contains_key(key@) && v@ == self.stored()[key@],
            r is Err <==> !self.stored().contains_key(key@),
            r matches Err(e) ==> e matches StoreError::NotFound(m) && m@ == key@,
    {
        let k = string_of(key);
        match find_key(&self.objects, &k) {
            Some(i) => {
                proof {
                    lemma_lookup_at(self.objects@, i as int);
                }
                Ok(copy_bytes(&self.objects[i].bytes))
            },
            None => Err(StoreError::NotFound(k)),
        }
    }

    /// Removes what is stored under `key`, if anything.
    pub fn delete(&mut self, key: &str) -> (r: Result<(), StoreError>)
        requires
            old(self).wf(),
        ensures
            final(self).wf(),
            r is Ok,
            final(self).stored() == old(self).stored().remove(key@),
            final(self).public_base_view() == old(self).public_base_view(),
    {
        let k = string_of(key);
        let _ = remove_key(&mut self.objects, &k);
        proof {
            assert forall|q: Seq<char>| #[trigger] has_key(self.objects@, q) == (q != key@ && has_key(old(self).objects@, q)) by {
                if q != key@ {
                    assert(lookup(self.objects@, q) == lookup(old(self).objects@, q));
                } else {
                    assert(lookup(self.objects@, q) is None);
                }
            }
            assert forall|q: Seq<char>| q != key@ implies #[trigger] lookup(self.objects@, q) == lookup(old(self).objects@, q) by {}
            assert(self.stored() =~= old(self).stored().remove(key@));
        }
        Ok(())
    }

    /// Something is stored under `key`.
    pub fn has_object(&self, key: &str) -> (r: Result<bool, StoreError>)
        requires
            self.wf(),
        ensures
            r matches Ok(b) && b == self.stored().contains_key(key@),
    {
        let k = string_of(key);
        let found = find_key(&self.objects, &k);
        Ok(found.is_some())
    }

    /// `<public base>/put/<key>`: where a client uploads the object.
    pub fn presign_put(&self, key: &str, ttl_secs: u64) -> (r: Result<String, StoreError>)
        ensures
            r matches Ok(u) && u@ == store_url(self.public_base_view(), "put"@, key@),
    {
        Ok(store_url_exec(&self.public_base, "put", key))
    }

    /// `<public base>/get/<key>`: where a client downloads the object.
    pub fn presign_get(&self, key: &str, ttl_secs: u64) -> (r: Result<String, StoreError>)
        ensures
            r matches Ok(u) && u@ == store_url(self.public_base_view(), "get"@, key@),
    {
        Ok(store_url_exec(&self.public_base, "get", key))
    }
}

/// What a read gives back after a write: the bytes written, and every other key is
/// unaffected.
pub proof fn law_memory_read_after_write(before: MemoryObjectStore, after: MemoryObjectStore, key: Seq<char>, bytes: Seq<u8>, other: Seq<char>)
    requires
        after.stored() == before.stored().insert(key, bytes),
    ensures
        after.stored().contains_key(key) && after.stored()[key] == bytes,
        other != key ==> (after.stored().contains_key(other) == before.stored().contains_key(other)
            && (before.stored().contains_key(other) ==> after.stored()[other] == before.stored()[other])),
{
}

/// The on-disk object store: objects under a root directory, URLs under the API base.
#[derive(Debug)]
pub struct DiskObjectStore {
    pub root: String,
    pub public_base: String,
}

impl DiskObjectStore {
    /// The store under `root` whose URLs start with `public_base`; the caller creates the
    /// directory.
    pub fn at(root: String, public_base: String) -> (r: Self)
        ensures
            r.root == root,
            r.public_base == public_base,
    {
        DiskObjectStore { root, public_base }
    }

    /// The file that holds the object under `key`.
    pub fn path_for(&self, key: &str) -> (r: Result<String, StoreError>)
        ensures
            r is Err <==> key_refused(key@),
            r matches Ok(p) ==> p@ == join_path(self.root@, safe_key(key@)),
            r matches Err(e) ==> e matches StoreError::Validation(m) && m@ == "invalid object key"@,
    {
        let safe = sanitize_key(key)?;
        Ok(crate::server::config::join_path_exec(&self.root, safe.as_str()))
    }

    /// `<base>/uploads/<key>/bytes`: the server's upload endpoint.
    pub fn presign_put(&self, key: &str, ttl_secs: u64) -> (r: Result<String, StoreError>)
        ensures
            r matches Ok(u) && u@ == strip_trailing(self.public_base@, '/') + "/uploads/"@ + key@ + "/bytes"@,
    {
        let bc = chars_of_string(&self.public_base);
        let mut out = strip_trailing_vec(&bc, '/');
        push_str(&mut out, "/uploads/");
        push_str(&mut out, key);
        push_str(&mut out, "/bytes");
        Ok(string_from_chars(&out))
    }

    /// `<base>/v1/artifacts/<key>/content`: the server's download endpoint.
    pub fn presign_get(&self, key: &str, ttl_secs: u64) -> (r: Result<String, StoreError>)
        ensures
            r matches Ok(u) && u@ == strip_trailing(self.public_base@, '/') + "/v1/artifacts/"@ + key@ + "/content"@,
    {
        let bc = chars_of_string(&self.public_base);
        let mut out = strip_trailing_vec(&bc, '/');
        push_str(&mut out, "/v1/artifacts/");
        push_str(&mut out, key);
        push_str(&mut out, "/content");
        Ok(string_from_chars(&out))
    }
}

} // verus!
