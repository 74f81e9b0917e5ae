//! A configured game instance: a named set of parameters (some persisted
//! to its config file, some derived at load time from the package
//! descriptor), the launch-argument list built from them, and the
//! classpath of its libraries.

use vstd::prelude::*;
use vstd::string::StringExecFns;
use crate::data::download::Classifier;
use crate::data::package::Package;
use crate::downloader::FileInfo;
use crate::error::Error;
use crate::native::OsKind;
use crate::user::User;
use crate::util::{i32_to_string, int_str, join2, join3};
use crate::version::client_path_spec;
use crate::MinecraftAuth;

verus! {

/// Why creating or loading an instance failed.
#[derive(Debug, PartialEq)]
pub enum InstanceCreateError {
    NoFoundVersion,
    AlreadyExist,
    FolderCreateError,
    ReadConfigError(String),
    NoFoundManifestVersion,
    NeedDownload(Vec<FileInfo>),
}

/// One parameter value: an integer, a string, or nothing.
#[derive(Debug, PartialEq)]
pub enum DataParam {
    Int(i32),
    Str(String),
    Empty,
}

impl Clone for DataParam {
    fn clone(&self) -> (r: Self)
        ensures
            r == *self,
    {
        match self {
            DataParam::Int(i) => DataParam::Int(*i),
            DataParam::Str(s) => DataParam::Str(s.clone()),
            DataParam::Empty => DataParam::Empty,
        }
    }
}

/// The characters a parameter value renders to: the decimal digits of an
/// integer, the string itself, nothing for an empty value.
pub open spec fn data_param_str(d: DataParam) -> Seq<char> {
    match d {
        DataParam::Int(i) => int_str(i as int),
        DataParam::Str(s) => s@,
        DataParam::Empty => Seq::empty(),
    }
}

/// A parameter value counts as true when it is a positive integer or the
/// string `true`.
pub open spec fn data_param_true(d: DataParam) -> bool {
    match d {
        DataParam::Int(i) => i > 0,
        DataParam::Str(s) => s@ == "true"@,
        DataParam::Empty => false,
    }
}

impl DataParam {
    /// Whether the value counts as true.
    pub fn is_true(&self) -> (r: bool)
        ensures
            r == data_param_true(*self),
    {
        match self {
            DataParam::Int(i) => *i > 0,
            DataParam::Str(s) => *s == "true".to_owned(),
            DataParam::Empty => false,
        }
    }

    /// The integer value, when the parameter holds one.
    pub fn as_int(&self) -> (r: Option<i32>)
        ensures
            r == match *self {
                DataParam::Int(i) => Some(i),
                _ => None::<i32>,
            },
    {
        if let DataParam::Int(val) = self {
            Some(*val)
        } else {
            None
        }
    }

    /// The string value, when the parameter holds one.
    pub fn as_string(&self) -> (r: Option<String>)
        ensures
            r == match *self {
                DataParam::Str(s) => Some(s),
                _ => None::<String>,
            },
    {
        if let DataParam::Str(val) = self {
            Some(val.clone())
        } else {
            None
        }
    }

    /// Renders the value to text.
    pub fn render(&self) -> (r: String)
        ensures
            r@ == data_param_str(*self),
    {
        match self {
            DataParam::Int(i) => i32_to_string(*i),
            DataParam::Str(s) => s.clone(),
            DataParam::Empty => String::new(),
        }
    }
}

/// A named parameter of an instance, and whether it belongs in the
/// persisted config file.
#[derive(Debug, PartialEq)]
pub struct Param {
    pub data: DataParam,
    pub on_config: bool,
}

impl Param {
    pub fn new(data: DataParam, on_config: bool) -> (r: Self)
        ensures
            r.data == data,
            r.on_config == on_config,
    {
        Self { data, on_config }
    }
}

impl Clone for Param {
    fn clone(&self) -> (r: Self)
        ensures
            r == *self,
    {
        Param { data: self.data.clone(), on_config: self.on_config }
    }
}

/// Memory and window settings for a new instance.
#[derive(Debug, Copy, Clone, PartialEq, Eq, Structural)]
pub struct Config {
    pub ram_max: i32,
    pub ram_min: i32,
    pub window_width: i32,
    pub window_height: i32,
}

impl Config {
    pub fn new(ram_min: i32, ram_max: i32, window_width: i32, window_height: i32) -> (r: Self)
        ensures
            r.ram_min == ram_min,
            r.ram_max == ram_max,
            r.window_width == window_width,
            r.window_height == window_height,
    {
        Self { ram_max, ram_min, window_width, window_height }
    }
}

impl Default for Config {
    fn default() -> (r: Self)
        ensures
            r.ram_max == 1024,
            r.ram_min == 512,
            r.window_height == 600,
            r.window_width == 800,
    {
        Self { ram_max: 1024, ram_min: 512, window_height: 600, window_width: 800 }
    }
}

/// The map an association list of parameters denotes.
pub open spec fn params_map(s: Seq<(String, Param)>) -> Map<Seq<char>, Param>
    decreases s.len(),
{
    if s.len() == 0 {
        Map::empty()
    } else {
        params_map(s.drop_last()).insert(s.last().0@, s.last().1)
    }
}

proof fn lemma_params_map_contains(s: Seq<(String, Param)>, k: Seq<char>)
    ensures
        params_map(s).contains_key(k) <==> exists|i: int|
            0 <= i < s.len() && (#[trigger] s[i].0)@ == k,
    decreases s.len(),
{
    if s.len() > 0 {
        lemma_params_map_contains(s.drop_last(), k);
        if params_map(s).contains_key(k) {
            if s.last().0@ != k {
                let i = choose|i: int|
                    0 <= i < s.drop_last().len() && (#[trigger] s.drop_last()[i].0)@ == k;
                assert((s[i].0)@ == k);
            } else {
                assert((s[s.len() - 1].0)@ == k);
            }
        }
        if exists|i: int| 0 <= i < s.len() && (#[trigger] s[i].0)@ == k {
            let i = choose|i: int| 0 <= i < s.len() && (#[trigger] s[i].0)@ == k;
            if i < s.len() - 1 {
                assert((s.drop_last()[i].0)@ == k);
            }
        }
    }
}

proof fn lemma_params_map_at(s: Seq<(String, Param)>, i: int)
    requires
        0 <= i < s.len(),
        forall|k: int, l: int| 0 <= k < l < s.len() ==> (#[trigger] s[k].0)@ != (#[trigger] s[l].0)@,
    ensures
        params_map(s).contains_key(s[i].0@),
        params_map(s)[s[i].0@] == s[i].1,
    decreases s.len(),
{
    if i == s.len() - 1 {
    } else {
        assert(forall|k: int, l: int|
            0 <= k < l < s.drop_last().len() ==> (#[trigger] s.drop_last()[k].0)@ != (
            #[trigger] s.drop_last()[l].0)@);
        lemma_params_map_at(s.drop_last(), i);
        assert((s[i].0)@ != (s[s.len() - 1].0)@);
    }
}

proof fn lemma_params_map_update(s: Seq<(String, Param)>, i: int, x: (String, Param))
    requires
        0 <= i < s.len(),
        forall|k: int, l: int| 0 <= k < l < s.len() ==> (#[trigger] s[k].0)@ != (#[trigger] s[l].0)@,
        x.0@ == s[i].0@,
    ensures
        params_map(s.update(i, x)) == params_map(s).insert(x.0@, x.1),
        forall|k: int, l: int|
            0 <= k < l < s.update(i, x).len() ==> (#[trigger] s.update(i, x)[k].0)@ != (
            #[trigger] s.update(i, x)[l].0)@,
    decreases s.len(),
{
    let t = s.update(i, x);
    assert(forall|k: int| 0 <= k < s.len() ==> (#[trigger] t[k].0)@ == s[k].0@);
    if i == s.len() - 1 {
        assert(t.drop_last() =~= s.drop_last());
        assert(params_map(t) =~= params_map(s).insert(x.0@, x.1));
    } else {
        assert(t.drop_last() =~= s.drop_last().update(i, x));
        assert(forall|k: int, l: int|
            0 <= k < l < s.drop_last().len() ==> (#[trigger] s.drop_last()[k].0)@ != (
            #[trigger] s.drop_last()[l].0)@);
        lemma_params_map_update(s.drop_last(), i, x);
        assert((s.last().0)@ != x.0@);
        assert(params_map(t) =~= params_map(s).insert(x.0@, x.1));
    }
}

/// A loaded or freshly created game instance: its parameter table.
#[derive(Debug, PartialEq)]
pub struct Instance {
    pub is_new: bool,
    pub param: Vec<(String, Param)>,
}

impl Instance {
    /// Parameter names are distinct.
    pub open spec fn wf(self) -> bool {
        forall|k: int, l: int|
            0 <= k < l < self.param@.len() ==> (#[trigger] self.param@[k].0)@ != (
            #[trigger] self.param@[l].0)@
    }

    /// The parameter table as a map.
    pub open spec fn params(self) -> Map<Seq<char>, Param> {
        params_map(self.param@)
    }

    /// An instance with no parameters yet.
    pub fn empty(is_new: bool) -> (r: Self)
        ensures
            r.wf(),
            r.is_new == is_new,
            r.params() == Map::<Seq<char>, Param>::empty(),
    {
        Instance { is_new, param: Vec::new() }
    }

    fn find(&self, name: &str) -> (r: Option<usize>)
        requires
            self.wf(),
        ensures
            r matches Some(i) ==> i < self.param@.len() && (self.param@[i as int].0)@ == name@,
            r is None <==> !self.params().contains_key(name@),
    {
        proof {
            lemma_params_map_contains(self.param@, name@);
        }
        let key = name.to_owned();
        let mut i: usize = 0;
        while i < self.param.len()
            invariant
                i <= self.param@.len(),
                key@ == name@,
                forall|k: int| 0 <= k < i ==> (#[trigger] self.param@[k].0)@ != name@,
            decreases self.param@.len() - i,
        {
            if self.param[i].0 == key {
                proof {
                    lemma_params_map_contains(self.param@, name@);
                }
                return Some(i);
            }
            i += 1;
        }
        None
    }

    /// Sets a parameter, returning the value it replaces, if any.
    pub fn add_param(&mut self, name: &str, val: Param) -> (r: Option<Param>)
        requires
            old(self).wf(),
        ensures
            final(self).wf(),
            final(self).is_new == old(self).is_new,
            final(self).params() == old(self).params().insert(name@, val),
            r is Some <==> old(self).params().contains_key(name@),
            r matches Some(p) ==> p == old(self).params()[name@],
    {
        match self.find(name) {
            Some(i) => {
                proof {
                    lemma_params_map_at(self.param@, i as int);
                }
                let prev = self.param[i].1.clone();
                let ghost olds = self.param@;
                self.param.set(i, (name.to_owned(), val));
                proof {
                    lemma_params_map_update(olds, i as int, self.param@[i as int]);
                }
                Some(prev)
            },
            None => {
                let ghost olds = self.param@;
                self.param.push((name.to_owned(), val));
                proof {
                    assert(self.param@.drop_last() =~= olds);
                    lemma_params_map_contains(olds, name@);
                    assert forall|k: int, l: int|
                        0 <= k < l < self.param@.len() implies (#[trigger] self.param@[k].0)@ != (
                        #[trigger] self.param@[l].0)@ by {
                        if l < self.param@.len() - 1 {
                            assert((olds[k].0)@ != (olds[l].0)@);
                        } else {
                            assert((olds[k].0)@ != name@);
                        }
                    }
                }
                None
            },
        }
    }

    /// The value of a parameter; an empty value when it is not set.
    pub fn param(&self, name: &str) -> (r: DataParam)
        requires
            self.wf(),
        ensures
            r == if self.params().contains_key(name@) {
                self.params()[name@].data
            } else {
                DataParam::Empty
            },
    {
        match self.find(name) {
            Some(i) => {
                proof {
                    lemma_params_map_at(self.param@, i as int);
                }
                self.param[i].1.data.clone()
            },
            None => DataParam::Empty,
        }
    }

    /// Replaces the value of an existing parameter, keeping its
    /// persistence flag; does nothing when the parameter is not set.
    pub fn update_param(&mut self, name: &str, val: DataParam) -> (r: Option<()>)
        requires
            old(self).wf(),
        ensures
            final(self).wf(),
            final(self).is_new == old(self).is_new,
            r is Some <==> old(self).params().contains_key(name@),
            old(self).params().contains_key(name@) ==> final(self).params() == old(
                self,
            ).params().insert(
                name@,
                Param { data: val, on_config: old(self).params()[name@].on_config },
            ),
            !old(self).params().contains_key(name@) ==> *final(self) == *old(self),
    {
        match self.find(name) {
            Some(i) => {
                proof {
                    lemma_params_map_at(self.param@, i as int);
                }
                let on_config = self.param[i].1.on_config;
                let ghost olds = self.param@;
                self.param.set(i, (name.to_owned(), Param { data: val, on_config }));
                proof {
                    lemma_params_map_update(olds, i as int, self.param@[i as int]);
                }
                Some(())
            },
            None => None,
        }
    }

    /// Turns the instance into a Forge one: marks it, and redirects its
    /// version type, main class and tweak class to the Forge launcher.
    pub fn install_forge(&mut self) -> (r: Result<(), Error>)
        requires
            old(self).wf(),
        ensures
            final(self).wf(),
            final(self).is_new == old(self).is_new,
            r is Ok,
            str_param_is(final(self).params(), "useForge"@, "true"@, true),
            (old(self).params().contains_key("versionType"@) ==> str_param_is(
                final(self).params(),
                "versionType"@,
                "Forge"@,
                old(self).params()["versionType"@].on_config,
            )),
            (old(self).params().contains_key("mainClass"@) ==> str_param_is(
                final(self).params(),
                "mainClass"@,
                "net.minecraft.launchwrapper.Launch"@,
                old(self).params()["mainClass"@].on_config,
            )),
            str_param_is(
                final(self).params(),
                "tweakClass"@,
                "net.minecraftforge.fml.common.launcher.FMLTweaker"@,
                false,
            ),
            (!old(self).params().contains_key("versionType"@) ==> !final(self).params().contains_key("versionType"@)),
            (!old(self).params().contains_key("mainClass"@) ==> !final(self).params().contains_key("mainClass"@)),
            forall|k: Seq<char>|
                (k != "useForge"@ && k != "versionType"@ && k != "mainClass"@ && k != "tweakClass"@)
                    ==> ((final(self).params().contains_key(k) <==> old(
                    self,
                ).params().contains_key(k)) && (old(self).params().contains_key(k)
                    ==> #[trigger] final(self).params()[k] == old(self).params()[k])),
    {
        proof {
            reveal_strlit("useForge");
            reveal_strlit("versionType");
            reveal_strlit("mainClass");
            reveal_strlit("tweakClass");
            assert("useForge"@.len() == 8);
            assert("versionType"@.len() == 11);
            assert("mainClass"@.len() == 9);
            assert("tweakClass"@.len() == 10);
            assert("useForge"@ != "versionType"@);
            assert("useForge"@ != "mainClass"@);
            assert("useForge"@ != "tweakClass"@);
            assert("versionType"@ != "mainClass"@);
            assert("versionType"@ != "tweakClass"@);
            assert("mainClass"@ != "tweakClass"@);
        }
        self.add_param("useForge", Param::new(DataParam::Str("true".to_owned()), true));
        self.update_param("versionType", DataParam::Str("Forge".to_owned()));
        self.update_param("mainClass", DataParam::Str("net.minecraft.launchwrapper.Launch".to_owned()));
        self.add_param(
            "tweakClass",
            Param::new(
                DataParam::Str("net.minecraftforge.fml.common.launcher.FMLTweaker".to_owned()),
                false,
            ),
        );
        Ok(())
    }

    /// The launch-argument list of the instance: memory and library-path
    /// options, classpath and main class, then window, account and
    /// directory arguments, and the Forge tweak class when the instance
    /// uses Forge.
    #[verifier::rlimit(80)]
    pub fn args(&self, app: &MinecraftAuth, user: &User) -> (r: Vec<String>)
        requires
            self.wf(),
        ensures
            r@.map_values(|s: String| s@) == args_spec(self.params(), app.name@, *user),
    {
        let mut v: Vec<String> = Vec::new();
        v.push(join3("-Xms", self.param("ramMin").render().as_str(), "m"));
        v.push(join3("-Xmx", self.param("ramMax").render().as_str(), "m"));
        v.push(join2("-Djava.library.path=", self.param("gameDir").render().as_str()));
        v.push(join2("-Dorg.lwjgl.librarypath=", self.param("nativeDir").render().as_str()));
        v.push(join2("-Dminecraft.launcher.brand=", app.name.as_str()));
        v.push("-Dminecraft.launcher.version=2.1".to_owned());
        v.push("-cp".to_owned());
        v.push(self.param("libs").render());
        v.push(self.param("mainClass").render());
        v.push("--width".to_owned());
        v.push(self.param("windowWidth").render());
        v.push("--height".to_owned());
        v.push(self.param("windowHeight").render());
        v.push("--username".to_owned());
        v.push(user.username.clone());
        v.push("--accessToken".to_owned());
        v.push(user.access_token.clone());
        v.push("--uuid".to_owned());
        v.push(user.uuid.clone());
        v.push("--version".to_owned());
        v.push(self.param("version").render());
        v.push("--gameDir".to_owned());
        v.push(self.param("gameDir").render());
        v.push("--assetsDir".to_owned());
        v.push(self.param("assetsDir").render());
        v.push("--assetIndex".to_owned());
        v.push(self.param("assetIndex").render());
        if self.param("useForge").is_true() {
            v.push("--tweakClass".to_owned());
            v.push(self.param("tweakClass").render());
        }
        proof {
            assert(v@.map_values(|s: String| s@) =~= args_spec(self.params(), app.name@, *user));
        }
        v
    }

    /// Renders the persisted parameters as the config file's text: one
    /// `name=value` line per parameter marked for the config file, in
    /// table order.
    pub fn config_to_string(&self) -> (r: String)
        ensures
            r@ == config_text(self.param@),
    {
        let mut s = String::new();
        let mut i: usize = 0;
        while i < self.param.len()
            invariant
                i <= self.param@.len(),
                s@ == config_text(self.param@.take(i as int)),
            decreases self.param@.len() - i,
        {
            proof {
                assert(self.param@.take(i as int + 1).drop_last() =~= self.param@.take(i as int));
                assert(self.param@.take(i as int + 1).last() == self.param@[i as int]);
            }
            if self.param[i].1.on_config {
                s.append(self.param[i].0.as_str());
                s.append("=");
                s.append(self.param[i].1.data.render().as_str());
                s.append("\n");
            }
            i += 1;
        }
        proof {
            assert(self.param@.take(self.param@.len() as int) =~= self.param@);
        }
        s
    }

    /// Fills in the derived parameters of a freshly created or loaded
    /// instance from its package descriptor: its name and directories,
    /// its classpath, its Java requirement and asset index, and its
    /// version type and main class (redirected when the instance uses
    /// Forge).
    pub fn end_init_instance(
        &mut self,
        app: &MinecraftAuth,
        manifest: &Package,
        name: &str,
        version: &str,
        os: OsKind,
    )
        requires
            old(self).wf(),
        ensures
            final(self).wf(),
            final(self).is_new == old(self).is_new,
            inited_params(
                old(self).params(),
                final(self).params(),
                app.path@,
                *manifest,
                name@,
                version@,
                os,
            ),
    {
        proof {
            reveal_strlit("name");
            reveal_strlit("path");
            reveal_strlit("libs");
            reveal_strlit("assetsDir");
            reveal_strlit("gameDir");
            reveal_strlit("nativeDir");
            reveal_strlit("javaVersion");
            reveal_strlit("assetIndex");
            reveal_strlit("versionType");
            reveal_strlit("mainClass");
            reveal_strlit("tweakClass");
            reveal_strlit("useForge");
            assert("name"@.len() == 4);
            assert("path"@.len() == 4);
            assert("libs"@.len() == 4);
            assert("assetsDir"@.len() == 9);
            assert("gameDir"@.len() == 7);
            assert("nativeDir"@.len() == 9);
            assert("javaVersion"@.len() == 11);
            assert("assetIndex"@.len() == 10);
            assert("versionType"@.len() == 11);
            assert("mainClass"@.len() == 9);
            assert("tweakClass"@.len() == 10);
            assert("useForge"@.len() == 8);
            assert("name"@[0] == 'n');
            assert("path"@[0] == 'p');
            assert("name"@ != "path"@);
            assert("libs"@[0] == 'l');
            assert("name"@ != "libs"@);
            assert("name"@ != "assetsDir"@);
            assert("name"@ != "gameDir"@);
            assert("name"@ != "nativeDir"@);
            assert("name"@ != "javaVersion"@);
            assert("name"@ != "assetIndex"@);
            assert("name"@ != "versionType"@);
            assert("name"@ != "mainClass"@);
            assert("name"@ != "tweakClass"@);
            assert("name"@ != "useForge"@);
            assert("path"@ != "libs"@);
            assert("path"@ != "assetsDir"@);
            assert("path"@ != "gameDir"@);
            assert("path"@ != "nativeDir"@);
            assert("path"@ != "javaVersion"@);
            assert("path"@ != "assetIndex"@);
            assert("path"@ != "versionType"@);
            assert("path"@ != "mainClass"@);
            assert("path"@ != "tweakClass"@);
            assert("path"@ != "useForge"@);
            assert("libs"@ != "assetsDir"@);
            assert("libs"@ != "gameDir"@);
            assert("libs"@ != "nativeDir"@);
            assert("libs"@ != "javaVersion"@);
            assert("libs"@ != "assetIndex"@);
            assert("libs"@ != "versionType"@);
            assert("libs"@ != "mainClass"@);
            assert("libs"@ != "tweakClass"@);
            assert("libs"@ != "useForge"@);
            assert("assetsDir"@ != "gameDir"@);
            assert("assetsDir"@[0] == 'a');
            assert("nativeDir"@[0] == 'n');
            assert("assetsDir"@ != "nativeDir"@);
            assert("assetsDir"@ != "javaVersion"@);
            assert("assetsDir"@ != "assetIndex"@);
            assert("assetsDir"@ != "versionType"@);
            assert("mainClass"@[0] == 'm');
            assert("assetsDir"@ != "mainClass"@);
            assert("assetsDir"@ != "tweakClass"@);
            assert("assetsDir"@ != "useForge"@);
            assert("gameDir"@ != "nativeDir"@);
            assert("gameDir"@ != "javaVersion"@);
            assert("gameDir"@ != "assetIndex"@);
            assert("gameDir"@ != "versionType"@);
            assert("gameDir"@ != "mainClass"@);
            assert("gameDir"@ != "tweakClass"@);
            assert("gameDir"@ != "useForge"@);
            assert("nativeDir"@ != "javaVersion"@);
            assert("nativeDir"@ != "assetIndex"@);
            assert("nativeDir"@ != "versionType"@);
            assert("nativeDir"@ != "mainClass"@);
            assert("nativeDir"@ != "tweakClass"@);
            assert("nativeDir"@ != "useForge"@);
            assert("javaVersion"@ != "assetIndex"@);
            assert("javaVersion"@[0] == 'j');
            assert("versionType"@[0] == 'v');
            assert("javaVersion"@ != "versionType"@);
            assert("javaVersion"@ != "mainClass"@);
            assert("javaVersion"@ != "tweakClass"@);
            assert("javaVersion"@ != "useForge"@);
            assert("assetIndex"@ != "versionType"@);
            assert("assetIndex"@ != "mainClass"@);
            assert("assetIndex"@[0] == 'a');
            assert("tweakClass"@[0] == 't');
            assert("assetIndex"@ != "tweakClass"@);
            assert("assetIndex"@ != "useForge"@);
            assert("versionType"@ != "mainClass"@);
            assert("versionType"@ != "tweakClass"@);
            assert("versionType"@ != "useForge"@);
            assert("mainClass"@ != "tweakClass"@);
            assert("mainClass"@ != "useForge"@);
            assert("tweakClass"@ != "useForge"@);
        }
        let path = join3(app.path.as_str(), "/instances/", name);
        self.add_param("name", Param::new(DataParam::Str(name.to_owned()), false));
        self.add_param("path", Param::new(DataParam::Str(path.clone()), false));
        self.add_param(
            "libs",
            Param::new(
                DataParam::Str(get_all_libs_of_version(app, manifest, version, os)),
                false,
            ),
        );
        self.add_param(
            "assetsDir",
            Param::new(DataParam::Str(join2(app.path.as_str(), "/assets")), false),
        );
        self.add_param(
            "gameDir",
            Param::new(DataParam::Str(join2(path.as_str(), "/.minecraft")), false),
        );
        self.add_param(
            "nativeDir",
            Param::new(DataParam::Str(join2(path.as_str(), "/natives")), false),
        );
        self.add_param(
            "javaVersion",
            Param::new(DataParam::Int(manifest.java_version.major_version), false),
        );
        self.add_param("assetIndex", Param::new(DataParam::Str(manifest.assets.clone()), false));
        if self.param("useForge").is_true() {
            self.add_param(
                "versionType",
                Param::new(DataParam::Str("Forge".to_owned()), false),
            );
            self.add_param(
                "mainClass",
                Param::new(DataParam::Str("net.minecraft.launchwrapper.Launch".to_owned()), false),
            );
            self.add_param(
                "tweakClass",
                Param::new(
                    DataParam::Str("net.minecraftforge.fml.common.launcher.FMLTweaker".to_owned()),
                    false,
                ),
            );
        } else {
            self.add_param("versionType", Param::new(DataParam::Str(manifest.t.clone()), false));
            self.add_param(
                "mainClass",
                Param::new(DataParam::Str(manifest.main_class.clone()), false),
            );
        }
    }
}

/// The parameter under this key is a string with these characters and
/// this persistence flag.
pub open spec fn str_param_is(
    m: Map<Seq<char>, Param>,
    k: Seq<char>,
    val: Seq<char>,
    on_config: bool,
) -> bool {
    &&& m.contains_key(k)
    &&& m[k].data is Str
    &&& data_param_str(m[k].data) == val
    &&& m[k].on_config == on_config
}

/// The parameter value rendered under this key; nothing when unset.
pub open spec fn pstr(m: Map<Seq<char>, Param>, k: Seq<char>) -> Seq<char> {
    if m.contains_key(k) {
        data_param_str(m[k].data)
    } else {
        Seq::empty()
    }
}

/// The launch-argument list as character sequences.
pub open spec fn args_spec(m: Map<Seq<char>, Param>, app_name: Seq<char>, u: User) -> Seq<
    Seq<char>,
> {
    let base = seq![
        "-Xms"@ + pstr(m, "ramMin"@) + "m"@,
        "-Xmx"@ + pstr(m, "ramMax"@) + "m"@,
        "-Djava.library.path="@ + pstr(m, "gameDir"@),
        "-Dorg.lwjgl.librarypath="@ + pstr(m, "nativeDir"@),
        "-Dminecraft.launcher.brand="@ + app_name,
        "-Dminecraft.launcher.version=2.1"@,
        "-cp"@,
        pstr(m, "libs"@),
        pstr(m, "mainClass"@),
        "--width"@,
        pstr(m, "windowWidth"@),
        "--height"@,
        pstr(m, "windowHeight"@),
        "--username"@,
        u.username@,
        "--accessToken"@,
        u.access_token@,
        "--uuid"@,
        u.uuid@,
        "--version"@,
        pstr(m, "version"@),
        "--gameDir"@,
        pstr(m, "gameDir"@),
        "--assetsDir"@,
        pstr(m, "assetsDir"@),
        "--assetIndex"@,
        pstr(m, "assetIndex"@),
    ];
    if m.contains_key("useForge"@) && data_param_true(m["useForge"@].data) {
        base + seq!["--tweakClass"@, pstr(m, "tweakClass"@)]
    } else {
        base
    }
}

/// One `name=value` line for each parameter marked for the config file.
pub open spec fn config_text(s: Seq<(String, Param)>) -> Seq<char>
    decreases s.len(),
{
    if s.len() == 0 {
        Seq::empty()
    } else {
        config_text(s.drop_last()) + (if s.last().1.on_config {
            s.last().0@ + "="@ + data_param_str(s.last().1.data) + "\n"@
        } else {
            Seq::empty()
        })
    }
}

/// A `=` stands at index `i` and nowhere earlier.
pub open spec fn first_eq_at(s: Seq<char>, i: int) -> bool {
    &&& 0 <= i < s.len()
    &&& s[i] == '='
    &&& forall|j: int| 0 <= j < i ==> s[j] != '='
}

/// Splits one config line at its first `=` into a parameter name and its
/// value; `None` for a line without `=`.
pub fn parse_config_line(line: &str) -> (r: Option<(String, String)>)
    ensures
        r is Some <==> exists|i: int| first_eq_at(line@, i),
        r matches Some(p) ==> forall|i: int|
            first_eq_at(line@, i) ==> p.0@ == line@.subrange(0, i) && p.1@ == line@.subrange(
                i + 1,
                line@.len() as int,
            ),
{
    let n = line.unicode_len();
    let mut i: usize = 0;
    while i < n
        invariant
            i <= n,
            n == line@.len(),
            forall|j: int| 0 <= j < i ==> line@[j] != '=',
        decreases n - i,
    {
        if line.get_char(i) == '=' {
            let name = line.substring_char(0, i).to_owned();
            let value = line.substring_char(i + 1, n).to_owned();
            proof {
                assert(first_eq_at(line@, i as int));
                assert forall|k: int| first_eq_at(line@, k) implies k == i as int by {
                    if k < i as int {
                        assert(line@[k] != '=');
                    } else if k > i as int {
                        assert(line@[i as int] != '=');
                    }
                }
            }
            return Some((name, value));
        }
        i += 1;
    }
    None
}

/// The repository-relative path a library contributes to the classpath:
/// its generic artifact's path, else a directly-given classifier
/// artifact's path, else nothing.
pub open spec fn lib_rel(lib: crate::data::library::Library) -> Seq<char> {
    match lib.downloads.artifact {
        Some(a) => match a.path {
            Some(p) => p@,
            None => Seq::empty(),
        },
        None => match lib.downloads.classifiers {
            Some(c) => match c {
                Classifier::Simple(a) => match a.path {
                    Some(p) => p@,
                    None => Seq::empty(),
                },
                Classifier::Complex(_) => Seq::empty(),
            },
            None => Seq::empty(),
        },
    }
}

/// The classpath separator of a platform.
pub open spec fn sep_spec(os: OsKind) -> char {
    if os is Windows {
        ';'
    } else {
        ':'
    }
}

/// The library part of the classpath: one `{root}/libraries/{rel}` entry
/// per library, each followed by the separator.
pub open spec fn classpath_libs(
    root: Seq<char>,
    libs: Seq<crate::data::library::Library>,
    sep: char,
) -> Seq<char>
    decreases libs.len(),
{
    if libs.len() == 0 {
        Seq::empty()
    } else {
        classpath_libs(root, libs.drop_last(), sep) + root + "/libraries/"@ + lib_rel(libs.last())
            + seq![sep]
    }
}

/// The full classpath of a version: its libraries, then its client jar.
pub open spec fn classpath_spec(
    root: Seq<char>,
    libs: Seq<crate::data::library::Library>,
    version: Seq<char>,
    os: OsKind,
) -> Seq<char> {
    classpath_libs(root, libs, sep_spec(os)) + client_path_spec(root, version)
}

/// Builds the classpath of a version from its package descriptor: every
/// library's repository path under `{root}/libraries/`, separated by the
/// platform's separator, ending with the version's client jar.
pub fn get_all_libs_of_version(
    app: &MinecraftAuth,
    manifest: &Package,
    version: &str,
    os: OsKind,
) -> (r: String)
    ensures
        r@ == classpath_spec(app.path@, manifest.libraries@, version@, os),
{
    let sep: &str = if let OsKind::Windows = os {
        ";"
    } else {
        ":"
    };
    proof {
        reveal_strlit(";");
        reveal_strlit(":");
        assert(sep@ =~= seq![sep_spec(os)]);
    }
    let mut libs = String::new();
    let mut i: usize = 0;
    while i < manifest.libraries.len()
        invariant
            i <= manifest.libraries@.len(),
            sep@ =~= seq![sep_spec(os)],
            libs@ == classpath_libs(app.path@, manifest.libraries@.take(i as int), sep_spec(os)),
        decreases manifest.libraries@.len() - i,
    {
        proof {
            assert(manifest.libraries@.take(i as int + 1).drop_last() =~= manifest.libraries@.take(
                i as int,
            ));
            assert(manifest.libraries@.take(i as int + 1).last() == manifest.libraries@[i as int]);
        }
        let lib = &manifest.libraries[i];
        let rel: &str = match &lib.downloads.artifact {
            Some(a) => match &a.path {
                Some(p) => p.as_str(),
                None => "",
            },
            None => match &lib.downloads.classifiers {
                Some(Classifier::Simple(a)) => match &a.path {
                    Some(p) => p.as_str(),
                    None => "",
                },
                _ => "",
            },
        };
        proof {
            reveal_strlit("");
            assert(rel@ == lib_rel(manifest.libraries@[i as int]));
        }
        libs.append(app.path.as_str());
        libs.append("/libraries/");
        libs.append(rel);
        libs.append(sep);
        i += 1;
    }
    proof {
        assert(manifest.libraries@.take(manifest.libraries@.len() as int)
            =~= manifest.libraries@);
    }
    libs.append(crate::version::client_path(app.path.as_str(), version).as_str());
    libs
}

/// What `end_init_instance` guarantees of the parameter table: each
/// derived parameter is set to its documented value, and every other
/// parameter is untouched.
pub open spec fn inited_params(
    m0: Map<Seq<char>, Param>,
    m: Map<Seq<char>, Param>,
    root: Seq<char>,
    manifest: Package,
    name: Seq<char>,
    version: Seq<char>,
    os: OsKind,
) -> bool {
    let path = root + "/instances/"@ + name;
    let forge = m0.contains_key("useForge"@) && data_param_true(m0["useForge"@].data);
    &&& str_param_is(m, "name"@, name, false)
    &&& str_param_is(m, "path"@, path, false)
    &&& str_param_is(m, "libs"@, classpath_spec(root, manifest.libraries@, version, os), false)
    &&& str_param_is(m, "assetsDir"@, root + "/assets"@, false)
    &&& str_param_is(m, "gameDir"@, path + "/.minecraft"@, false)
    &&& str_param_is(m, "nativeDir"@, path + "/natives"@, false)
    &&& m.contains_key("javaVersion"@) && m["javaVersion"@].data == DataParam::Int(
        manifest.java_version.major_version,
    ) && m["javaVersion"@].on_config == false
    &&& str_param_is(m, "assetIndex"@, manifest.assets@, false)
    &&& (forge ==> str_param_is(m, "versionType"@, "Forge"@, false) && str_param_is(
        m,
        "mainClass"@,
        "net.minecraft.launchwrapper.Launch"@,
        false,
    ) && str_param_is(m, "tweakClass"@, "net.minecraftforge.fml.common.launcher.FMLTweaker"@, false))
    &&& (!forge ==> str_param_is(m, "versionType"@, manifest.t@, false) && str_param_is(
        m,
        "mainClass"@,
        manifest.main_class@,
        false,
    ))
    &&& forall|k: Seq<char>|
        (k != "name"@ && k != "path"@ && k != "libs"@ && k != "assetsDir"@ && k != "gameDir"@ && k
            != "nativeDir"@ && k != "javaVersion"@ && k != "assetIndex"@ && k != "versionType"@ && k
            != "mainClass"@ && k != "tweakClass"@) ==> ((m.contains_key(k) <==> m0.contains_key(k))
            && (m0.contains_key(k) ==> #[trigger] m[k] == m0[k]))
}

} // verus!
