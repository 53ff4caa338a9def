//! The starter configuration written by `init`.

use vstd::prelude::*;

verus! {

/// The text of a starter configuration: listen address, health path, static
/// directory, and one proxy route, all at the top level.
pub fn default_config_text() -> (s: &'static str)
    ensures
        s@ == "listen: 0.0.0.0:8080 # HTTP 服务监听地址\nhealthPath: /__health__ # 健康检查路径\nstaticDir: ./dist # 静态文件目录\n\nproxy: # 代理路由表\n  /api: http://127.0.0.1:4000 # /api 和 /api/* 转发到 4000\n"@,
{
    "listen: 0.0.0.0:8080 # HTTP 服务监听地址\nhealthPath: /__health__ # 健康检查路径\nstaticDir: ./dist # 静态文件目录\n\nproxy: # 代理路由表\n  /api: http://127.0.0.1:4000 # /api 和 /api/* 转发到 4000\n"
}

} // verus!
