use peregrine::cli::args::{default_config_path, Cli, Command};
use peregrine::cli::init::default_config_text;
use peregrine::cli::{dispatch, CliPlan};

#[test]
fn default_config_text_uses_root_level_top_level_keys() {
    let expected = "listen: 0.0.0.0:8080 # HTTP 服务监听地址\nhealthPath: /__health__ # 健康检查路径\nstaticDir: ./dist # 静态文件目录\n\nproxy: # 代理路由表\n  /api: http://127.0.0.1:4000 # /api 和 /api/* 转发到 4000\n";

    assert_eq!(default_config_text(), expected);
}

#[test]
fn dispatch_picks_subcommand_or_serve() {
    let plan = dispatch(Cli { config: "a.yaml".to_string(), command: Some(Command::Init) });
    assert!(matches!(plan, CliPlan::Init { ref config_path } if config_path == "a.yaml"));
    let plan = dispatch(Cli { config: "b.yaml".to_string(), command: Some(Command::Validate) });
    assert!(matches!(plan, CliPlan::Validate { ref config_path } if config_path == "b.yaml"));
    let plan = dispatch(Cli { config: "c.yaml".to_string(), command: None });
    assert!(matches!(plan, CliPlan::Serve { ref config_path } if config_path == "c.yaml"));
}

#[test]
fn default_config_path_is_peregrine_yaml() {
    assert_eq!(default_config_path(), "peregrine.yaml");
}
