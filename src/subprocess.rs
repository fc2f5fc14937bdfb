//! The command line of an engine that runs in a sub-process, and how such a
//! command is shown.
use vstd::prelude::*;
use crate::local_model::LocalModel;
use crate::protocols::ENDPOINT_SCHEME;
use crate::protocols::Endpoint;
use crate::text::dec_of;
use crate::text::decimal;
use crate::text::push_char;

verus! {

/// How the nodes of an engine spread over several machines find each other.
#[derive(Debug, Clone)]
pub struct MultiNodeConfig {
    pub num_nodes: u32,
    pub node_rank: u32,
    pub leader_addr: String,
}

/// The options of an engine sub-process that come from the command line.
#[derive(Debug, Clone)]
pub struct EngineFlags {
    pub tensor_parallel_size: u32,
    pub base_gpu_id: u32,
    pub extra_engine_args: Option<String>,
}

/// The arguments of the engine sub-process, after the interpreter: the script,
/// where to serve, the model and its settings, then the options that are only
/// passed when set.
pub open spec fn engine_args_spec(
    script_path: Seq<char>,
    endpoint: &Endpoint,
    model: &LocalModel,
    flags: &EngineFlags,
    multi_node: &Option<MultiNodeConfig>,
) -> Seq<Seq<char>> {
    let card = model.spec_card();
    let base = seq![
        script_path,
        "--endpoint"@,
        ENDPOINT_SCHEME@ + endpoint.namespace@ + seq!['.'] + endpoint.component@ + seq!['.']
            + endpoint.name@,
        "--model-path"@,
        model.spec_path(),
        "--model-name"@,
        card.display_name@,
        "--tensor-parallel-size"@,
        dec_of(flags.tensor_parallel_size as nat),
        "--kv-block-size"@,
        dec_of(card.kv_cache_block_size as nat),
        "--context-length"@,
        dec_of(card.context_length as nat),
    ];
    let gpu = if flags.base_gpu_id != 0 {
        seq!["--base-gpu-id"@, dec_of(flags.base_gpu_id as nat)]
    } else {
        Seq::empty()
    };
    let nodes = match multi_node {
        Some(m) => seq![
            "--nnodes"@,
            dec_of(m.num_nodes as nat),
            "--node-rank"@,
            dec_of(m.node_rank as nat),
            "--dist-init-addr"@,
            m.leader_addr@,
        ],
        None => Seq::empty(),
    };
    let extra = match &flags.extra_engine_args {
        Some(a) => seq!["--extra-engine-args"@, a@],
        None => Seq::empty(),
    };
    base + gpu + nodes + extra
}

pub open spec fn views(v: Seq<String>) -> Seq<Seq<char>> {
    v.map_values(|s: String| s@)
}

fn push_arg(args: &mut Vec<String>, a: String)
    ensures
        views(final(args)@) == views(old(args)@).push(a@),
{
    args.push(a);
    assert(views(args@) =~= views(old(args)@).push(a@));
}

/// The arguments of the engine sub-process (see `engine_args_spec`).
pub fn engine_args(
    script_path: &str,
    endpoint: &Endpoint,
    model: &LocalModel,
    flags: &EngineFlags,
    multi_node: &Option<MultiNodeConfig>,
) -> (r: Vec<String>)
    ensures
        views(r@) == engine_args_spec(script_path@, endpoint, model, flags, multi_node),
{
    let card = model.card();
    let mut args: Vec<String> = Vec::new();
    push_arg(&mut args, script_path.to_owned());
    push_arg(&mut args, "--endpoint".to_owned());
    push_arg(&mut args, endpoint.as_url());
    push_arg(&mut args, "--model-path".to_owned());
    push_arg(&mut args, model.path().to_owned());
    push_arg(&mut args, "--model-name".to_owned());
    push_arg(&mut args, model.display_name().to_owned());
    push_arg(&mut args, "--tensor-parallel-size".to_owned());
    push_arg(&mut args, decimal(flags.tensor_parallel_size as u64));
    push_arg(&mut args, "--kv-block-size".to_owned());
    push_arg(&mut args, decimal(card.kv_cache_block_size as u64));
    push_arg(&mut args, "--context-length".to_owned());
    push_arg(&mut args, decimal(card.context_length as u64));
    let ghost base = views(args@);
    if flags.base_gpu_id != 0 {
        push_arg(&mut args, "--base-gpu-id".to_owned());
        push_arg(&mut args, decimal(flags.base_gpu_id as u64));
    }
    let ghost with_gpu = views(args@);
    match multi_node {
        Some(m) => {
            push_arg(&mut args, "--nnodes".to_owned());
            push_arg(&mut args, decimal(m.num_nodes as u64));
            push_arg(&mut args, "--node-rank".to_owned());
            push_arg(&mut args, decimal(m.node_rank as u64));
            push_arg(&mut args, "--dist-init-addr".to_owned());
            push_arg(&mut args, m.leader_addr.clone());
        },
        None => {},
    }
    let ghost with_nodes = views(args@);
    match &flags.extra_engine_args {
        Some(a) => {
            push_arg(&mut args, "--extra-engine-args".to_owned());
            push_arg(&mut args, a.clone());
        },
        None => {},
    }
    proof {
        let spec = engine_args_spec(script_path@, endpoint, model, flags, multi_node);
        assert(views(args@) =~= spec);
    }
    args
}

/// A command as a line: the program, then each argument, separated by spaces.
pub open spec fn command_line(program: Seq<char>, args: Seq<Seq<char>>) -> Seq<char>
    decreases args.len(),
{
    if args.len() == 0 {
        program + seq![' ']
    } else if args.len() == 1 {
        program + seq![' '] + args[0]
    } else {
        command_line(program, args.drop_last()) + seq![' '] + args.last()
    }
}

/// Shows a command as one line (see `command_line`).
pub fn pretty_cmd(program: &str, args: &Vec<String>) -> (r: String)
    ensures
        r@ == command_line(program@, views(args@)),
{
    let mut r = program.to_owned();
    push_char(&mut r, ' ');
    if args.len() == 0 {
        return r;
    }
    r.append(args[0].as_str());
    let mut i: usize = 1;
    while i < args.len()
        invariant
            1 <= i <= args@.len(),
            r@ == command_line(program@, views(args@).subrange(0, i as int)),
        decreases args@.len() - i,
    {
        push_char(&mut r, ' ');
        r.append(args[i].as_str());
        proof {
            let s = views(args@).subrange(0, i + 1);
            assert(s.drop_last() =~= views(args@).subrange(0, i as int));
        }
        i = i + 1;
    }
    assert(views(args@).subrange(0, args@.len() as int) =~= views(args@));
    r
}

} // verus!
