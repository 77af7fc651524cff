//! Where object-storage keys land on disk, and which fetches a deployment needs.
use vstd::prelude::*;

use crate::config::Settings;
use crate::text::{
    contains_str, ends_with, seq_contains, seq_ends_with, seq_starts_with, starts_with,
    strip_end_seq, strip_start_seq, trim_char, trim_end_char,
};

verus! {

/// A prefix without `/` at either end.
pub open spec fn clean_prefix(p: Seq<char>) -> Seq<char> {
    strip_end_seq(strip_start_seq(p, '/'), '/')
}

/// The message for a key outside the configured prefix.
pub open spec fn outside_prefix_message(key: Seq<char>, clean: Seq<char>) -> Seq<char> {
    "R2 key "@ + key + " does not start with prefix "@ + clean + "/"@
}

/// The message for a key that could leave the bots folder.
pub open spec fn unsafe_key_message(key: Seq<char>) -> Seq<char> {
    "Unsafe R2 key path: "@ + key
}

/// The part of `key` below the prefix, without trailing `/`. A key outside the prefix,
/// or one whose remainder holds `..` or starts at the root, is refused.
pub open spec fn relative_key_spec(prefix: Seq<char>, key: Seq<char>) -> Result<Seq<char>, Seq<char>> {
    let clean = clean_prefix(prefix);
    if clean.len() > 0 && !seq_starts_with(key, clean.push('/')) {
        Err(outside_prefix_message(key, clean))
    } else {
        let relative = if clean.len() == 0 {
            key
        } else {
            key.subrange(clean.len() as int + 1, key.len() as int)
        };
        if seq_contains(relative, seq!['.', '.']) || (relative.len() > 0 && relative[0] == '/') {
            Err(unsafe_key_message(key))
        } else {
            Ok(strip_end_seq(relative, '/'))
        }
    }
}

/// `base` joined with `part` as `PathBuf::push` joins Unix paths: a part that starts at
/// the root replaces the base; a separator is added where the base does not end in one.
pub open spec fn path_join(base: Seq<char>, part: Seq<char>) -> Seq<char> {
    if part.len() > 0 && part[0] == '/' {
        part
    } else if base.len() == 0 || base.last() == '/' {
        base + part
    } else {
        base + seq!['/'] + part
    }
}

/// Joins two paths as `PathBuf::push` does.
pub fn join_path(base: &str, part: &str) -> (r: String)
    ensures
        r@ == path_join(base@, part@),
{
    let n = base.unicode_len();
    let slash = "/";
    proof {
        reveal_strlit("/");
        assert(slash@ =~= seq!['/']);
    }
    if starts_with(part, slash) {
        assert(part@.subrange(0, 1)[0] == part@[0]);
        return String::from_str(part);
    }
    assert(part@.len() > 0 ==> part@[0] != '/') by {
        if part@.len() > 0 && part@[0] == '/' {
            assert(part@.subrange(0, 1) =~= slash@);
        }
    }
    if n == 0 || ends_with(base, slash) {
        proof {
            if n > 0 {
                assert(base@.subrange(n - 1, n as int)[0] == base@.last());
            }
        }
        let mut r = String::from_str(base);
        r.append(part);
        r
    } else {
        proof {
            if base@.last() == '/' {
                assert(base@.subrange(n - 1, n as int) =~= slash@);
            }
        }
        let mut r = String::from_str(base);
        r.append(slash);
        r.append(part);
        r
    }
}

/// How keys of object storage map onto the bots folder.
pub struct R2Layout {
    pub enabled: bool,
    pub prefix: String,
    pub bots_path: String,
}

/// One fetch of a hydration: a whole folder, listed by its key without trailing `/`, or
/// a single object.
pub enum FetchStep {
    Folder { key: String, listing: String },
    Object { key: String },
}

impl R2Layout {
    /// The layout for `settings`; enabled storage needs a bucket and an endpoint.
    pub fn from_settings(settings: &Settings) -> (r: Result<R2Layout, String>)
        ensures
            match r {
                Ok(l) => l.enabled == settings.r2_enabled && l.prefix@ == clean_prefix(
                    settings.r2_prefix@,
                ) && l.bots_path@ == settings.bots_path@ && (settings.r2_enabled ==> (
                settings.r2_bucket@.len() > 0 && settings.r2_endpoint_url@.len() > 0)),
                Err(m) => settings.r2_enabled && (settings.r2_bucket@.len() == 0
                    || settings.r2_endpoint_url@.len() == 0) && m@
                    == "R2 is enabled but R2_BUCKET or R2_ENDPOINT_URL is empty"@,
            },
    {
        let prefix = String::from_str(trim_char(settings.r2_prefix.as_str(), '/'));
        if !settings.r2_enabled {
            return Ok(R2Layout { enabled: false, prefix, bots_path: settings.bots_path.clone() });
        }
        if settings.r2_bucket.as_str().unicode_len() == 0
            || settings.r2_endpoint_url.as_str().unicode_len() == 0 {
            return Err(String::from_str("R2 is enabled but R2_BUCKET or R2_ENDPOINT_URL is empty"));
        }
        Ok(R2Layout { enabled: true, prefix, bots_path: settings.bots_path.clone() })
    }

    /// The part of `key` below the prefix, or why the key is refused.
    pub fn relative_key(&self, key: &str) -> (r: Result<String, String>)
        ensures
            match (r, relative_key_spec(self.prefix@, key@)) {
                (Ok(a), Ok(b)) => a@ == b,
                (Err(a), Err(b)) => a@ == b,
                _ => false,
            },
    {
        let clean = trim_char(self.prefix.as_str(), '/');
        let cn = clean.unicode_len();
        let kn = key.unicode_len();
        let mut with_sep = String::from_str(clean);
        with_sep.append("/");
        proof {
            reveal_strlit("/");
            assert(with_sep@ =~= clean@.push('/'));
        }
        let relative: &str = if cn == 0 {
            key
        } else {
            if !starts_with(key, with_sep.as_str()) {
                let mut m = String::from_str("R2 key ");
                m.append(key);
                m.append(" does not start with prefix ");
                m.append(clean);
                m.append("/");
                return Err(m);
            }
            key.substring_char(cn + 1, kn)
        };
        let dots = "..";
        proof {
            reveal_strlit("..");
            assert(dots@ =~= seq!['.', '.']);
        }
        let rooted = relative.unicode_len() > 0 && relative.get_char(0) == '/';
        if contains_str(relative, dots) || rooted {
            let mut m = String::from_str("Unsafe R2 key path: ");
            m.append(key);
            return Err(m);
        }
        Ok(String::from_str(trim_end_char(relative, '/')))
    }

    /// Where `key` is written: `<bots_path>/bots/<relative key>`.
    pub fn local_path_for_key(&self, key: &str) -> (r: Result<String, String>)
        ensures
            match (r, relative_key_spec(self.prefix@, key@)) {
                (Ok(a), Ok(b)) => a@ == path_join(path_join(self.bots_path@, "bots"@), b),
                (Err(a), Err(b)) => a@ == b,
                _ => false,
            },
    {
        match self.relative_key(key) {
            Ok(rel) => {
                let base = join_path(self.bots_path.as_str(), "bots");
                Ok(join_path(base.as_str(), rel.as_str()))
            },
            Err(e) => Err(e),
        }
    }

    /// The fetches that hydrating `keys` takes: none where storage is disabled; else a
    /// folder fetch for each key that ends with `/` and an object fetch for the others.
    pub fn plan_hydration(&self, keys: &Vec<String>) -> (r: Vec<FetchStep>)
        ensures
            !self.enabled ==> r@.len() == 0,
            self.enabled ==> r@.len() == keys@.len(),
            self.enabled ==> forall|i: int|
                0 <= i < keys@.len() ==> match #[trigger] r@[i] {
                    FetchStep::Folder { key, listing } => seq_ends_with(keys@[i]@, seq!['/'])
                        && key@ == keys@[i]@ && listing@ == strip_end_seq(keys@[i]@, '/'),
                    FetchStep::Object { key } => !seq_ends_with(keys@[i]@, seq!['/']) && key@
                        == keys@[i]@,
                },
    {
        let mut r: Vec<FetchStep> = Vec::new();
        if !self.enabled {
            return r;
        }
        let slash = "/";
        proof {
            reveal_strlit("/");
            assert(slash@ =~= seq!['/']);
        }
        let mut i: usize = 0;
        while i < keys.len()
            invariant
                i <= keys.len(),
                r@.len() == i,
                slash@ == seq!['/'],
                forall|j: int|
                    0 <= j < i ==> match #[trigger] r@[j] {
                        FetchStep::Folder { key, listing } => seq_ends_with(
                            keys@[j]@,
                            seq!['/'],
                        ) && key@ == keys@[j]@ && listing@ == strip_end_seq(keys@[j]@, '/'),
                        FetchStep::Object { key } => !seq_ends_with(keys@[j]@, seq!['/'])
                            && key@ == keys@[j]@,
                    },
            decreases keys.len() - i,
        {
            let key = keys[i].as_str();
            if ends_with(key, slash) {
                let listing = String::from_str(trim_end_char(key, '/'));
                r.push(FetchStep::Folder { key: String::from_str(key), listing });
            } else {
                r.push(FetchStep::Object { key: String::from_str(key) });
            }
            i += 1;
        }
        r
    }
}

} // verus!
