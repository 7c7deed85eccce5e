use vstd::prelude::*;

use crate::manifest::MANIFEST_SCHEMA_VERSION;

verus! {

/// Host prefix of every public storage URL.
pub const PUBLIC_URL_PREFIX: &'static str = "https://storage.googleapis.com/";

/// Prefix of every storage bucket resource name.
pub const BUCKET_RESOURCE_PREFIX: &'static str = "projects/_/buckets/";

/// Name of the storage object an uploaded file is stored under:
/// `v<schema>/<commit>/<file>`, or `v<schema>/<commit>/<namespace>/<file>`
/// when a namespace is given.
pub open spec fn object_name_spec(file_name: Seq<char>, commit_hash: Seq<char>, namespace: Seq<char>) -> Seq<char> {
    if namespace.len() == 0 {
        "v"@ + MANIFEST_SCHEMA_VERSION@ + "/"@ + commit_hash + "/"@ + file_name
    } else {
        "v"@ + MANIFEST_SCHEMA_VERSION@ + "/"@ + commit_hash + "/"@ + namespace + "/"@ + file_name
    }
}

/// Public URL of an object in a bucket.
pub open spec fn public_url_spec(bucket: Seq<char>, object_name: Seq<char>) -> Seq<char> {
    PUBLIC_URL_PREFIX@ + bucket + "/"@ + object_name
}

/// Storage object name for an uploaded file.
pub fn gcs_object_name(file_name: &str, commit_hash: &str, namespace: &str) -> (r: String)
    ensures
        r@ == object_name_spec(file_name@, commit_hash@, namespace@),
{
    let mut r = String::from_str("v");
    r.append(MANIFEST_SCHEMA_VERSION);
    r.append("/");
    r.append(commit_hash);
    r.append("/");
    if !namespace.is_empty() {
        r.append(namespace);
        r.append("/");
    }
    r.append(file_name);
    r
}

/// Resource name of a bucket, as the storage client addresses it.
pub fn gcs_bucket_resource(bucket: &str) -> (r: String)
    ensures
        r@ == BUCKET_RESOURCE_PREFIX@ + bucket@,
{
    let mut r = String::from_str(BUCKET_RESOURCE_PREFIX);
    r.append(bucket);
    r
}

/// Public download URL of an uploaded object.
pub fn gcs_public_url(bucket: &str, object_name: &str) -> (r: String)
    ensures
        r@ == public_url_spec(bucket@, object_name@),
{
    let mut r = String::from_str(PUBLIC_URL_PREFIX);
    r.append(bucket);
    r.append("/");
    r.append(object_name);
    r
}

/// Different files of one commit are stored under different object names,
/// and so are the files of different commits.
pub proof fn law_object_names_distinct(f1: Seq<char>, f2: Seq<char>, c1: Seq<char>, c2: Seq<char>)
    ensures
        object_name_spec(f1, c1, Seq::empty()) == object_name_spec(f2, c1, Seq::empty()) ==> f1 == f2,
        !c1.contains('/') && !c2.contains('/') && object_name_spec(f1, c1, Seq::empty())
            == object_name_spec(f2, c2, Seq::empty()) ==> c1 == c2 && f1 == f2,
{
    reveal_strlit("v");
    reveal_strlit("/");
    reveal_strlit("1");
    let p1 = "v"@ + MANIFEST_SCHEMA_VERSION@ + "/"@ + c1 + "/"@;
    let p2 = "v"@ + MANIFEST_SCHEMA_VERSION@ + "/"@ + c2 + "/"@;
    let n1 = object_name_spec(f1, c1, Seq::empty());
    let n2 = object_name_spec(f2, c2, Seq::empty());
    assert(n1 =~= p1 + f1);
    assert(n2 =~= p2 + f2);
    if object_name_spec(f1, c1, Seq::empty()) == object_name_spec(f2, c1, Seq::empty()) {
        let m2 = object_name_spec(f2, c1, Seq::empty());
        assert(m2 =~= p1 + f2);
        assert(f1 =~= (p1 + f1).skip(p1.len() as int));
        assert(f2 =~= (p1 + f2).skip(p1.len() as int));
    }
    if !c1.contains('/') && !c2.contains('/') && n1 == n2 {
        // the commit ends at the third character `/`
        if c1.len() < c2.len() {
            assert(n1[3 + c1.len() as int] == '/');
            assert(n2[3 + c1.len() as int] == c2[c1.len() as int]);
        } else if c2.len() < c1.len() {
            assert(n2[3 + c2.len() as int] == '/');
            assert(n1[3 + c2.len() as int] == c1[c2.len() as int]);
        }
        assert(c1 =~= c2) by {
            assert forall|k: int| 0 <= k < c1.len() implies c1[k] == c2[k] by {
                assert(n1[3 + k] == c1[k]);
                assert(n2[3 + k] == c2[k]);
            }
        }
        assert(f1 =~= n1.skip(p1.len() as int));
        assert(f2 =~= n2.skip(p2.len() as int));
    }
}

/// Storage objects of one bundle upload: one per artifact, and the
/// manifest stored under the name the uploader chose.
pub struct BundleObjects {
    pub artifacts: Vec<String>,
    pub manifest: String,
}

/// Names the objects of a bundle upload: each artifact under
/// `v<schema>/<commit>/<file>`, the manifest under
/// `v<schema>/<commit>/<manifest_name>`.
pub fn bundle_object_names(file_names: &Vec<String>, commit_hash: &str, manifest_name: &str) -> (r: BundleObjects)
    ensures
        r.artifacts@.len() == file_names@.len(),
        forall|i: int|
            0 <= i < file_names@.len() ==> (#[trigger] r.artifacts@[i])@ == object_name_spec(
                file_names@[i]@,
                commit_hash@,
                Seq::empty(),
            ),
        r.manifest@ == object_name_spec(manifest_name@, commit_hash@, Seq::empty()),
{
    proof {
        reveal_strlit("");
    }
    let mut artifacts: Vec<String> = Vec::new();
    let mut i: usize = 0;
    while i < file_names.len()
        invariant
            i <= file_names@.len(),
            artifacts@.len() == i,
            ""@ == Seq::<char>::empty(),
            forall|k: int|
                0 <= k < i ==> (#[trigger] artifacts@[k])@ == object_name_spec(
                    file_names@[k]@,
                    commit_hash@,
                    Seq::empty(),
                ),
        decreases file_names@.len() - i,
    {
        artifacts.push(gcs_object_name(file_names[i].as_str(), commit_hash, ""));
        i = i + 1;
    }
    BundleObjects { artifacts, manifest: gcs_object_name(manifest_name, commit_hash, "") }
}

} // verus!
