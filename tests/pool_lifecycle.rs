use buckle::runner::{outcome, Error, Finished};
use buckle::zfs::{
    Dataset, Invocation, ModifyDataset, ModifyVolume, Pool, Volume, ZFSKind, ZFSStat,
};

const TEST_POOL_PREFIX: &str = "buckle-test";

/// A stand-in for the dataset tool that keeps its resources in memory and
/// answers invocations the way the tool does.
struct SimulatedTool {
    pools: Vec<String>,
    // full name, is a volume, size in bytes
    resources: Vec<(String, bool, u64)>,
}

impl SimulatedTool {
    fn new() -> Self {
        SimulatedTool { pools: Vec::new(), resources: Vec::new() }
    }

    fn create_pool(&mut self, name: &str) {
        self.pools.push(name.to_string());
    }

    fn refuse(message: String) -> Finished {
        Finished { success: false, stdout: Vec::new(), stderr: message.into_bytes() }
    }

    fn done(text: String) -> Finished {
        Finished { success: true, stdout: text.into_bytes(), stderr: Vec::new() }
    }

    fn find(&self, path: &str) -> Option<usize> {
        self.resources.iter().position(|r| r.0 == path)
    }

    fn exec(&mut self, inv: &Invocation) -> Finished {
        assert_eq!(inv.program, "zfs");
        let args: Vec<&str> = inv.args.iter().map(|a| a.as_str()).collect();
        match args.as_slice() {
            ["list", "-p"] => {
                let mut out = String::from("NAME                 USED  AVAIL     REFER  MOUNTPOINT\n");
                for pool in &self.pools {
                    out.push_str(&format!("{}  1073741824  4294967296  24576  /{}\n", pool, pool));
                }
                for (name, volume, size) in &self.resources {
                    if *volume {
                        out.push_str(&format!("{}  {}  4294967296  12288  -\n", name, size + 8192));
                    } else {
                        out.push_str(&format!("{}  24576  4294967296  24576  /{}\n", name, name));
                    }
                }
                Self::done(out)
            },
            ["create", "-V", size, path, ..] => {
                if self.find(path).is_some() {
                    return Self::refuse(format!("cannot create '{}': dataset already exists\n", path));
                }
                self.resources.push((path.to_string(), true, size.parse().unwrap()));
                Self::done(String::new())
            },
            ["create", path, ..] => {
                if self.find(path).is_some() {
                    return Self::refuse(format!("cannot create '{}': dataset already exists\n", path));
                }
                self.resources.push((path.to_string(), false, 0));
                Self::done(String::new())
            },
            ["destroy", path] => match self.find(path) {
                Some(i) => {
                    self.resources.remove(i);
                    Self::done(String::new())
                },
                None => Self::refuse(format!("cannot open '{}': dataset does not exist\n", path)),
            },
            ["rename", from, to] => match self.find(from) {
                Some(i) => {
                    self.resources[i].0 = to.to_string();
                    Self::done(String::new())
                },
                None => Self::refuse(format!("cannot open '{}': dataset does not exist\n", from)),
            },
            ["set", property, path] => match self.find(path) {
                Some(i) => {
                    if let Some(size) = property.strip_prefix("volsize=") {
                        self.resources[i].2 = size.parse().unwrap();
                    }
                    Self::done(String::new())
                },
                None => Self::refuse(format!("cannot open '{}': dataset does not exist\n", path)),
            },
            _ => Self::refuse(format!("unrecognized command '{}'\n", args.join(" "))),
        }
    }

    fn run(&mut self, inv: &Invocation) -> Result<(), Error> {
        outcome(Ok(self.exec(inv))).map(|_| ())
    }

    fn run_all(&mut self, invs: &[Invocation]) -> Result<(), Error> {
        for inv in invs {
            self.run(inv)?;
        }
        Ok(())
    }

    fn list(&mut self, pool: &Pool, filter: Option<String>) -> Result<Vec<ZFSStat>, Error> {
        let output = outcome(Ok(self.exec(&pool.list_command())))?;
        pool.list(filter, &output)
    }
}

fn create_zpool(tool: &mut SimulatedTool, name: &str) -> String {
    let full = format!("{}-{}", TEST_POOL_PREFIX, name);
    tool.create_pool(&full);
    full
}

#[test]
fn test_controller_zfs_lifecycle() {
    let mut tool = SimulatedTool::new();
    create_zpool(&mut tool, "controller-list");
    let pool = Pool::new(&format!("{}-controller-list", TEST_POOL_PREFIX));
    let list = tool.list(&pool, None).unwrap();
    assert_eq!(list.len(), 0);
    tool.run(&pool.create_dataset(&Dataset { name: "dataset".to_string(), quota: None }))
        .unwrap();
    let list = tool.list(&pool, None).unwrap();
    assert_eq!(list.len(), 1);
    assert_eq!(list[0].kind, ZFSKind::Dataset);
    assert_eq!(list[0].name, "dataset");
    assert_eq!(list[0].full_name, format!("{}-controller-list/dataset", TEST_POOL_PREFIX),);
    assert_ne!(list[0].size, 0);
    assert_ne!(list[0].used, 0);
    assert_ne!(list[0].refer, 0);
    assert_ne!(list[0].avail, 0);
    assert_eq!(
        list[0].mountpoint,
        Some(format!("/{}-controller-list/dataset", TEST_POOL_PREFIX))
    );
    tool.run(&pool.create_volume(&Volume { name: "volume".to_string(), size: 100 * 1024 * 1024 }))
        .unwrap();
    let list = tool.list(&pool, None).unwrap();
    assert_eq!(list.len(), 2);
    let list = tool.list(&pool, Some("volume".to_string())).unwrap();
    assert_eq!(list.len(), 1);
    assert_eq!(list[0].kind, ZFSKind::Volume);
    assert_eq!(list[0].name, "volume");
    assert_eq!(list[0].full_name, format!("{}-controller-list/volume", TEST_POOL_PREFIX),);
    assert_ne!(list[0].size, 0);
    assert_ne!(list[0].used, 0);
    assert_ne!(list[0].refer, 0);
    assert_ne!(list[0].avail, 0);
    assert_eq!(list[0].mountpoint, None);
    let list = tool.list(&pool, Some("dataset".to_string())).unwrap();
    assert_eq!(list.len(), 1);
    assert_eq!(list[0].kind, ZFSKind::Dataset);
    assert_eq!(list[0].name, "dataset");
    assert_eq!(list[0].full_name, format!("{}-controller-list/dataset", TEST_POOL_PREFIX),);
    assert_ne!(list[0].size, 0);
    assert_ne!(list[0].used, 0);
    assert_ne!(list[0].refer, 0);
    assert_ne!(list[0].avail, 0);
    assert_eq!(
        list[0].mountpoint,
        Some(format!("/{}-controller-list/dataset", TEST_POOL_PREFIX))
    );
    tool.run(&pool.destroy("dataset".to_string())).unwrap();
    let list = tool.list(&pool, Some("dataset".to_string())).unwrap();
    assert_eq!(list.len(), 0);
    let list = tool.list(&pool, None).unwrap();
    assert_eq!(list.len(), 1);
    tool.run(&pool.destroy("volume".to_string())).unwrap();
    let list = tool.list(&pool, Some("volume".to_string())).unwrap();
    assert_eq!(list.len(), 0);
    let list = tool.list(&pool, None).unwrap();
    assert_eq!(list.len(), 0);
}

#[test]
fn test_zfs_operations() {
    let mut tool = SimulatedTool::new();
    let name = create_zpool(&mut tool, "default");
    let pool = Pool::new(&name);

    assert_eq!(tool.list(&pool, None).unwrap().len(), 0);

    tool.run(&pool.create_dataset(&Dataset { name: "dataset".to_string(), quota: None }))
        .unwrap();
    let res = tool.list(&pool, None).unwrap();
    assert_eq!(res.len(), 1);
    let item = &res[0];
    assert_eq!(item.kind, ZFSKind::Dataset);
    assert_eq!(item.name, "dataset");
    assert_eq!(item.full_name, format!("{}-default/dataset", TEST_POOL_PREFIX),);
    assert_ne!(item.size, 0);
    assert_ne!(item.used, 0);
    assert_ne!(item.refer, 0);
    assert_ne!(item.avail, 0);
    assert_eq!(item.mountpoint, Some(format!("/{}-default/dataset", TEST_POOL_PREFIX)));

    tool.run(&pool.create_volume(&Volume { name: "volume".to_string(), size: 100 * 1024 * 1024 }))
        .unwrap();
    assert_eq!(tool.list(&pool, None).unwrap().len(), 2);

    let res = tool.list(&pool, Some("dataset".to_string())).unwrap();
    assert_eq!(res.len(), 1);
    let item = &res[0];
    assert_eq!(item.kind, ZFSKind::Dataset);
    assert_eq!(item.name, "dataset");
    assert_eq!(item.full_name, format!("{}-default/dataset", TEST_POOL_PREFIX),);
    assert_ne!(item.size, 0);
    assert_ne!(item.used, 0);
    assert_ne!(item.refer, 0);
    assert_ne!(item.avail, 0);
    assert_eq!(item.mountpoint, Some(format!("/{}-default/dataset", TEST_POOL_PREFIX)));

    tool.run_all(&pool.modify_dataset(&ModifyDataset {
        name: "dataset".into(),
        modifications: Dataset {
            name: "dataset2".into(),
            quota: Some((5 * 1024 * 1024).to_string()),
        },
    }))
    .unwrap();

    let res = tool.list(&pool, Some("dataset2".to_string())).unwrap();
    assert_eq!(res.len(), 1);
    let item = &res[0];
    assert_eq!(item.kind, ZFSKind::Dataset);
    assert_eq!(item.name, "dataset2");
    assert_eq!(item.full_name, format!("{}-default/dataset2", TEST_POOL_PREFIX),);
    assert_ne!(item.size, 0);
    assert_ne!(item.used, 0);
    assert_ne!(item.refer, 0);
    assert_ne!(item.avail, 0);
    assert_eq!(item.mountpoint, Some(format!("/{}-default/dataset2", TEST_POOL_PREFIX)));

    let res = tool.list(&pool, Some("volume".to_string())).unwrap();
    assert_eq!(res.len(), 1);
    let item = &res[0];
    assert_eq!(item.kind, ZFSKind::Volume);
    assert_eq!(item.name, "volume");
    assert_eq!(item.full_name, format!("{}-default/volume", TEST_POOL_PREFIX),);
    assert_ne!(item.size, 0);
    assert_ne!(item.used, 0);
    assert_ne!(item.refer, 0);
    assert_ne!(item.avail, 0);
    assert_eq!(item.mountpoint, None);

    tool.run_all(&pool.modify_volume(&ModifyVolume {
        name: "volume".into(),
        modifications: Volume { name: "volume2".into(), size: 5 * 1024 * 1024 },
    }))
    .unwrap();

    let res = tool.list(&pool, Some("volume2".to_string())).unwrap();
    assert_eq!(res.len(), 1);
    let item = &res[0];
    assert_eq!(item.kind, ZFSKind::Volume);
    assert_eq!(item.name, "volume2");
    assert_eq!(item.full_name, format!("{}-default/volume2", TEST_POOL_PREFIX),);
    assert_ne!(item.size, 0);
    assert!(item.size < 6 * 1024 * 1024 && item.size > 4 * 1024 * 1024, "{}", item.size);
    assert_ne!(item.used, 0);
    assert_ne!(item.refer, 0);
    assert_ne!(item.avail, 0);
    assert_eq!(item.mountpoint, None);

    tool.run(&pool.destroy("volume2".to_string())).unwrap();
    assert_eq!(tool.list(&pool, Some("volume2".to_string())).unwrap().len(), 0);
    tool.run(&pool.destroy("dataset2".to_string())).unwrap();
    assert_eq!(tool.list(&pool, Some("dataset2".to_string())).unwrap().len(), 0);
    assert_eq!(tool.list(&pool, None).unwrap().len(), 0);
}

#[test]
fn created_dataset_lists_once_with_filter_and_without() {
    let mut tool = SimulatedTool::new();
    let name = create_zpool(&mut tool, "round-trip");
    let pool = Pool::new(&name);
    tool.run(&pool.create_dataset(&Dataset { name: "dataset".to_string(), quota: None }))
        .unwrap();
    for filter in [None, Some("dataset".to_string())] {
        let list = tool.list(&pool, filter).unwrap();
        assert_eq!(list.len(), 1);
        assert_eq!(list[0].full_name, format!("{}/dataset", name));
        assert_eq!(list[0].size, list[0].used + list[0].avail);
    }
}

#[test]
fn created_volume_lists_as_volume() {
    let mut tool = SimulatedTool::new();
    tool.create_pool("p");
    let pool = Pool::new("p");
    tool.run(&pool.create_volume(&Volume { name: "v".to_string(), size: 104857600 })).unwrap();
    let list = tool.list(&pool, None).unwrap();
    assert_eq!(list.len(), 1);
    assert_eq!(list[0].kind, ZFSKind::Volume);
    assert_eq!(list[0].name, "v");
    assert_eq!(list[0].full_name, "p/v");
    assert_eq!(list[0].mountpoint, None);
    assert!(list[0].size > 0);
    assert_eq!(list[0].size, list[0].used);
}

#[test]
fn destroying_a_missing_resource_fails() {
    let mut tool = SimulatedTool::new();
    tool.create_pool("p");
    let pool = Pool::new("p");
    match tool.run(&pool.destroy("missing".to_string())) {
        Err(Error::ToolFailed(message)) => {
            assert_eq!(message, "cannot open 'p/missing': dataset does not exist\n")
        },
        other => panic!("expected a refusal of the tool, got {:?}", other),
    }
}

#[test]
fn destroy_and_create_are_not_idempotent() {
    let mut tool = SimulatedTool::new();
    tool.create_pool("p");
    let pool = Pool::new("p");
    let dataset = Dataset { name: "d".to_string(), quota: None };
    tool.run(&pool.create_dataset(&dataset)).unwrap();
    assert!(matches!(tool.run(&pool.create_dataset(&dataset)), Err(Error::ToolFailed(_))));
    tool.run(&pool.destroy("d".to_string())).unwrap();
    assert!(matches!(tool.run(&pool.destroy("d".to_string())), Err(Error::ToolFailed(_))));
}

#[test]
fn destroyed_resource_is_not_listed_under_its_name() {
    let mut tool = SimulatedTool::new();
    tool.create_pool("p");
    let pool = Pool::new("p");
    tool.run(&pool.create_dataset(&Dataset { name: "a".to_string(), quota: None })).unwrap();
    tool.run(&pool.create_dataset(&Dataset { name: "b".to_string(), quota: None })).unwrap();
    tool.run(&pool.destroy("a".to_string())).unwrap();
    assert_eq!(tool.list(&pool, Some("a".to_string())).unwrap().len(), 0);
    assert_eq!(tool.list(&pool, None).unwrap().len(), 1);
}
