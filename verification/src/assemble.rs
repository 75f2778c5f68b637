use vstd::prelude::*;

use crate::naming::{
    account_enum_name_of, decoder_name_of, instruction_enum_name_of, kebab_of, naming_context,
    snake_of,
};
use crate::process::EntityModel;
use crate::render::{
    accounts_mod_text, entity_file_text, entry_point_text, instructions_mod_text, manifest_text,
    render_accounts_mod, render_entity_file, render_entry_point, render_instructions_mod,
    render_manifest, render_types_mod, types_mod_text,
};

verus! {

/// One file of the emitted tree: where it goes and what it holds.
pub struct OutFile {
    pub path: String,
    pub content: String,
}

/// The whole emitted tree: the directories to create, in creation
/// order, and the files to write, in write order.
pub struct FilePlan {
    pub dirs: Vec<String>,
    pub files: Vec<OutFile>,
}

/// Whether the output root already ends with a path separator.
pub open spec fn slash_terminated(o: Seq<char>) -> bool {
    o.len() > 0 && o[o.len() - 1] == '/'
}

/// The root output directory: kebab-cased in package mode, snake-cased
/// in module mode.
pub open spec fn crate_dir_of(output: Seq<char>, program: Seq<char>, pkg: bool) -> Seq<char> {
    let base = if slash_terminated(output) {
        output
    } else {
        output + "/"@
    };
    if pkg {
        base + kebab_of(program) + "-decoder"@
    } else {
        base + snake_of(program) + "_decoder"@
    }
}

/// The source directory: nested under the root in package mode.
pub open spec fn src_dir_of(output: Seq<char>, program: Seq<char>, pkg: bool) -> Seq<char> {
    if pkg {
        crate_dir_of(output, program, pkg) + "/src"@
    } else {
        crate_dir_of(output, program, pkg)
    }
}

/// Whether any processed type requires oversized-array support.
pub open spec fn needs_big(types: Seq<EntityModel>) -> bool {
    exists|i: int| 0 <= i < types.len() && (#[trigger] types[i]).needs_big_array
}

/// Whether `f` is the file of entity `m` in directory `dir`.
pub open spec fn entity_file_at(f: OutFile, dir: Seq<char>, m: EntityModel, with_disc: bool) -> bool {
    f.path@ == dir + "/"@ + m.module_name@ + ".rs"@ && f.content@ == entity_file_text(m, with_disc)
}

/// The whole layout of one emission: every directory, every file path
/// and every file content, pinned by position.
pub open spec fn plan_matches(
    program: Seq<char>,
    accounts: Seq<EntityModel>,
    instructions: Seq<EntityModel>,
    types: Seq<EntityModel>,
    events: Seq<EntityModel>,
    output: Seq<char>,
    pkg: bool,
    plan: FilePlan,
) -> bool {
    let crate_dir = crate_dir_of(output, program, pkg);
    let src_dir = src_dir_of(output, program, pkg);
    let types_dir = src_dir + "/types"@;
    let accounts_dir = src_dir + "/accounts"@;
    let instructions_dir = src_dir + "/instructions"@;
    let nb = needs_big(types);
    let tn = types.len() as int;
    let an = accounts.len() as int;
    let il = instructions.len() as int;
    let en = events.len() as int;
    &&& plan.dirs@.len() == 5
    &&& plan.dirs@[0]@ == crate_dir
    &&& plan.dirs@[1]@ == src_dir
    &&& plan.dirs@[2]@ == types_dir
    &&& plan.dirs@[3]@ == accounts_dir
    &&& plan.dirs@[4]@ == instructions_dir
    &&& plan.files@.len() == tn + an + il + en + 4 + (if pkg {
        1int
    } else {
        0int
    })
    &&& forall|i: int|
        0 <= i < tn ==> entity_file_at(#[trigger] plan.files@[i], types_dir, types[i], false)
    &&& plan.files@[tn].path@ == types_dir + "/mod.rs"@
    &&& plan.files@[tn].content@ == types_mod_text(types, nb)
    &&& forall|i: int|
        0 <= i < an ==> entity_file_at(
            #[trigger] plan.files@[tn + 1 + i],
            accounts_dir,
            accounts[i],
            true,
        )
    &&& plan.files@[tn + 1 + an].path@ == accounts_dir + "/mod.rs"@
    &&& plan.files@[tn + 1 + an].content@ == accounts_mod_text(
        accounts,
        account_enum_name_of(program),
    )
    &&& forall|i: int|
        0 <= i < il ==> entity_file_at(
            #[trigger] plan.files@[tn + 2 + an + i],
            instructions_dir,
            instructions[i],
            true,
        )
    &&& forall|i: int|
        0 <= i < en ==> entity_file_at(
            #[trigger] plan.files@[tn + 2 + an + il + i],
            instructions_dir,
            events[i],
            true,
        )
    &&& plan.files@[tn + 2 + an + il + en].path@ == instructions_dir + "/mod.rs"@
    &&& plan.files@[tn + 2 + an + il + en].content@ == instructions_mod_text(
        instructions,
        events,
        instruction_enum_name_of(program),
    )
    &&& plan.files@[tn + 3 + an + il + en].path@ == (if pkg {
        src_dir + "/lib.rs"@
    } else {
        src_dir + "/mod.rs"@
    })
    &&& plan.files@[tn + 3 + an + il + en].content@ == entry_point_text(decoder_name_of(program))
    &&& (pkg ==> plan.files@[tn + 4 + an + il + en].path@ == crate_dir + "/Cargo.toml"@)
    &&& (pkg ==> plan.files@[tn + 4 + an + il + en].content@ == manifest_text(
        kebab_of(program),
        nb,
    ))
}

/// Two runs over the same program name and output root lay out the
/// same directories and the same file paths whenever their models carry
/// the same module names, category by category: the shape of the
/// emitted tree depends on names alone, never on discriminators or
/// field contents.
pub proof fn lemma_plan_shape_depends_on_names(
    program: Seq<char>,
    a1: Seq<EntityModel>,
    i1: Seq<EntityModel>,
    t1: Seq<EntityModel>,
    e1: Seq<EntityModel>,
    a2: Seq<EntityModel>,
    i2: Seq<EntityModel>,
    t2: Seq<EntityModel>,
    e2: Seq<EntityModel>,
    output: Seq<char>,
    pkg: bool,
    plan1: FilePlan,
    plan2: FilePlan,
)
    requires
        plan_matches(program, a1, i1, t1, e1, output, pkg, plan1),
        plan_matches(program, a2, i2, t2, e2, output, pkg, plan2),
        a1.len() == a2.len(),
        i1.len() == i2.len(),
        t1.len() == t2.len(),
        e1.len() == e2.len(),
        forall|j: int| 0 <= j < a1.len() ==> (#[trigger] a1[j]).module_name@ == a2[j].module_name@,
        forall|j: int| 0 <= j < i1.len() ==> (#[trigger] i1[j]).module_name@ == i2[j].module_name@,
        forall|j: int| 0 <= j < t1.len() ==> (#[trigger] t1[j]).module_name@ == t2[j].module_name@,
        forall|j: int| 0 <= j < e1.len() ==> (#[trigger] e1[j]).module_name@ == e2[j].module_name@,
    ensures
        plan1.dirs@.len() == plan2.dirs@.len(),
        forall|j: int| 0 <= j < plan1.dirs@.len() ==> (#[trigger] plan1.dirs@[j])@ == plan2.dirs@[j]@,
        plan1.files@.len() == plan2.files@.len(),
        forall|j: int|
            0 <= j < plan1.files@.len() ==> (#[trigger] plan1.files@[j]).path@
                == plan2.files@[j].path@,
{
    let tn = t1.len() as int;
    let an = a1.len() as int;
    let il = i1.len() as int;
    let en = e1.len() as int;
    assert forall|j: int| 0 <= j < plan1.files@.len() implies (#[trigger] plan1.files@[j]).path@
        == plan2.files@[j].path@ by {
        if j < tn {
            assert(entity_file_at(
                plan1.files@[j],
                src_dir_of(output, program, pkg) + "/types"@,
                t1[j],
                false,
            ));
            assert(entity_file_at(
                plan2.files@[j],
                src_dir_of(output, program, pkg) + "/types"@,
                t2[j],
                false,
            ));
        } else if tn + 1 <= j < tn + 1 + an {
            let k = j - (tn + 1);
            assert(entity_file_at(
                plan1.files@[tn + 1 + k],
                src_dir_of(output, program, pkg) + "/accounts"@,
                a1[k],
                true,
            ));
            assert(entity_file_at(
                plan2.files@[tn + 1 + k],
                src_dir_of(output, program, pkg) + "/accounts"@,
                a2[k],
                true,
            ));
        } else if tn + 2 + an <= j < tn + 2 + an + il {
            let k = j - (tn + 2 + an);
            assert(entity_file_at(
                plan1.files@[tn + 2 + an + k],
                src_dir_of(output, program, pkg) + "/instructions"@,
                i1[k],
                true,
            ));
            assert(entity_file_at(
                plan2.files@[tn + 2 + an + k],
                src_dir_of(output, program, pkg) + "/instructions"@,
                i2[k],
                true,
            ));
        } else if tn + 2 + an + il <= j < tn + 2 + an + il + en {
            let k = j - (tn + 2 + an + il);
            assert(entity_file_at(
                plan1.files@[tn + 2 + an + il + k],
                src_dir_of(output, program, pkg) + "/instructions"@,
                e1[k],
                true,
            ));
            assert(entity_file_at(
                plan2.files@[tn + 2 + an + il + k],
                src_dir_of(output, program, pkg) + "/instructions"@,
                e2[k],
                true,
            ));
        }
    }
}

fn entity_path(dir: &String, m: &EntityModel) -> (r: String)
    ensures
        r@ == dir@ + "/"@ + m.module_name@ + ".rs"@,
{
    let mut p = dir.clone();
    p.append("/");
    p.append(m.module_name.as_str());
    p.append(".rs");
    p
}

fn mod_rs_path(dir: &String) -> (r: String)
    ensures
        r@ == dir@ + "/mod.rs"@,
{
    let mut p = dir.clone();
    p.append("/mod.rs");
    p
}

fn any_needs_big(types: &Vec<EntityModel>) -> (r: bool)
    ensures
        r == needs_big(types@),
{
    let mut i: usize = 0;
    while i < types.len()
        invariant
            i <= types@.len(),
            forall|j: int| 0 <= j < i ==> !(#[trigger] types@[j]).needs_big_array,
        decreases types@.len() - i,
    {
        if types[i].needs_big_array {
            return true;
        }
        i = i + 1;
    }
    false
}

fn push_entity_files(
    files: &mut Vec<OutFile>,
    dir: &String,
    ms: &Vec<EntityModel>,
    with_disc: bool,
)
    ensures
        final(files)@.len() == old(files)@.len() + ms@.len(),
        forall|j: int|
            0 <= j < old(files)@.len() ==> #[trigger] final(files)@[j] == old(files)@[j],
        forall|j: int|
            old(files)@.len() <= j < final(files)@.len() ==> entity_file_at(
                #[trigger] final(files)@[j],
                dir@,
                ms@[j - old(files)@.len()],
                with_disc,
            ),
{
    let ghost base = files@;
    let mut i: usize = 0;
    while i < ms.len()
        invariant
            i <= ms@.len(),
            files@.len() == base.len() + i,
            forall|j: int| 0 <= j < base.len() ==> #[trigger] files@[j] == base[j],
            forall|j: int|
                base.len() <= j < files@.len() ==> entity_file_at(
                    #[trigger] files@[j],
                    dir@,
                    ms@[j - base.len()],
                    with_disc,
                ),
        decreases ms@.len() - i,
    {
        let f = OutFile {
            path: entity_path(dir, &ms[i]),
            content: render_entity_file(&ms[i], with_disc),
        };
        files.push(f);
        i = i + 1;
    }
}

/// Lays out the whole output tree for one generation run: directories,
/// per-entity files, aggregators, entry point, and in package mode the
/// manifest. Instructions and events share one directory and one
/// aggregator; module-name collisions are checked within each category
/// only, so an instruction and an event with one module name share one
/// path there and the later write wins. The big-array import and
/// dependency appear exactly when some processed type needs
/// oversized-array support.
pub fn assemble(
    program: &str,
    accounts: &Vec<EntityModel>,
    instructions: &Vec<EntityModel>,
    types: &Vec<EntityModel>,
    events: &Vec<EntityModel>,
    output: &str,
    as_package: bool,
) -> (r: FilePlan)
    ensures
        plan_matches(program@, accounts@, instructions@, types@, events@, output@, as_package, r),
{
    let ctx = naming_context(program);
    let n = output.unicode_len();
    let mut crate_dir: String = output.to_owned();
    if !(n > 0 && output.get_char(n - 1) == '/') {
        crate_dir.append("/");
    }
    if as_package {
        crate_dir.append(ctx.decoder_name_kebab.as_str());
        crate_dir.append("-decoder");
    } else {
        crate_dir.append(ctx.program_snake.as_str());
        crate_dir.append("_decoder");
    }
    proof {
        assert(crate_dir@ =~= crate_dir_of(output@, program@, as_package));
    }
    let mut src_dir: String = crate_dir.clone();
    if as_package {
        src_dir.append("/src");
    }
    let mut types_dir: String = src_dir.clone();
    types_dir.append("/types");
    let mut accounts_dir: String = src_dir.clone();
    accounts_dir.append("/accounts");
    let mut instructions_dir: String = src_dir.clone();
    instructions_dir.append("/instructions");

    let mut dirs: Vec<String> = Vec::new();
    dirs.push(crate_dir.clone());
    dirs.push(src_dir.clone());
    dirs.push(types_dir.clone());
    dirs.push(accounts_dir.clone());
    dirs.push(instructions_dir.clone());

    let nb = any_needs_big(types);
    let mut files: Vec<OutFile> = Vec::new();

    push_entity_files(&mut files, &types_dir, types, false);
    files.push(OutFile { path: mod_rs_path(&types_dir), content: render_types_mod(types, nb) });

    push_entity_files(&mut files, &accounts_dir, accounts, true);
    files.push(
        OutFile {
            path: mod_rs_path(&accounts_dir),
            content: render_accounts_mod(accounts, ctx.account_enum_name.as_str()),
        },
    );

    push_entity_files(&mut files, &instructions_dir, instructions, true);
    push_entity_files(&mut files, &instructions_dir, events, true);
    files.push(
        OutFile {
            path: mod_rs_path(&instructions_dir),
            content: render_instructions_mod(
                instructions,
                events,
                ctx.instruction_enum_name.as_str(),
            ),
        },
    );

    let entry_path = if as_package {
        let mut p = src_dir.clone();
        p.append("/lib.rs");
        p
    } else {
        mod_rs_path(&src_dir)
    };
    files.push(
        OutFile { path: entry_path, content: render_entry_point(ctx.decoder_name.as_str()) },
    );

    if as_package {
        let mut p = crate_dir.clone();
        p.append("/Cargo.toml");
        files.push(
            OutFile {
                path: p,
                content: render_manifest(ctx.decoder_name_kebab.as_str(), nb),
            },
        );
    }

    FilePlan { dirs, files }
}

} // verus!
