//! A built-in demonstration collection, used to populate the request
//! browser before a project of the user's own is opened.

use vstd::prelude::*;
use vstd::string::StringExecFns;
use crate::collection::PandaCollection;

verus! {

/// The demonstration collection: one unselectable root folder named
/// `collection` holding two request files, a `transactions` folder with
/// three more, and a deliberately slow request for trying cancellation.
pub fn get_demo_collection() -> (r: Vec<PandaCollection>)
    ensures
        r@.len() == 1,
        r@[0].id@ == "1"@,
        r@[0].name@ == "collection"@,
        r@[0].path@ == "collection"@,
        r@[0].content is None,
        !r@[0].is_selectable,
        r@[0].item_type@ == "folder"@,
        r@[0].children matches Some(cs) && {
            &&& cs@.len() == 4
            &&& cs@[0].name@ == "get_products.toml"@
            &&& cs@[0].item_type@ == "file"@
            &&& cs@[0].is_selectable
            &&& cs@[0].children is None
            &&& cs@[0].content matches Some(c) && c@
                == "[get]\nurl = \"https://fakestoreapi.com/products\"\n\n[get.query]\nlimit = 20\npage = 1\n\n[get.headers]\nAuthorization = \"Bearer _.auth_token\"\nAccept = \"application/json\"\n"@
            &&& cs@[1].name@ == "get_user.toml"@
            &&& cs@[1].item_type@ == "file"@
            &&& cs@[1].is_selectable
            &&& cs@[1].children is None
            &&& cs@[1].content matches Some(c) && c@
                == "[get]\nurl = \"https://jsonplaceholder.typicode.com/users/1\"\n\n[get.headers]\nAuthorization = \"Bearer _.auth_token\"\nAccept = \"application/json\"\n"@
            &&& cs@[2].name@ == "transactions"@
            &&& cs@[2].item_type@ == "folder"@
            &&& !cs@[2].is_selectable
            &&& cs@[2].content is None
            &&& cs@[2].children matches Some(ts) && {
                &&& ts@.len() == 3
                &&& ts@[0].name@ == "delete_transactions.toml"@
                &&& ts@[1].name@ == "get_transactions.toml"@
                &&& ts@[2].name@ == "create_transaction.toml"@
                &&& forall|i: int|
                    0 <= i < 3 ==> (#[trigger] ts@[i].item_type@) == "file"@ && ts@[i].is_selectable
                        && ts@[i].children is None && ts@[i].content is Some
            }
            &&& cs@[3].name@ == "delayed_request.toml"@
            &&& cs@[3].item_type@ == "file"@
            &&& cs@[3].is_selectable
            &&& cs@[3].children is None
            &&& cs@[3].content matches Some(c) && c@
                == "[get]\nurl = \"https://httpbin.org/delay/5\"\n\n[get.headers]\nAuthorization = \"Bearer _.auth_token\"\nAccept = \"application/json\"\n    "@
        },
{
    let get_products = PandaCollection {
        id: String::from_str("2"),
        name: String::from_str("get_products.toml"),
        path: String::from_str("get_products.toml"),
        content: Some(
            String::from_str(
                "[get]\nurl = \"https://fakestoreapi.com/products\"\n\n[get.query]\nlimit = 20\npage = 1\n\n[get.headers]\nAuthorization = \"Bearer _.auth_token\"\nAccept = \"application/json\"\n",
            ),
        ),
        children: None,
        is_selectable: true,
        item_type: String::from_str("file"),
    };
    let get_user = PandaCollection {
        id: String::from_str("3"),
        name: String::from_str("get_user.toml"),
        path: String::from_str("get_user.toml"),
        content: Some(
            String::from_str(
                "[get]\nurl = \"https://jsonplaceholder.typicode.com/users/1\"\n\n[get.headers]\nAuthorization = \"Bearer _.auth_token\"\nAccept = \"application/json\"\n",
            ),
        ),
        children: None,
        is_selectable: true,
        item_type: String::from_str("file"),
    };
    let delete_transactions = PandaCollection {
        id: String::from_str("5"),
        name: String::from_str("delete_transactions.toml"),
        path: String::from_str("transactions/delete_transactions.toml"),
        content: Some(
            String::from_str(
                "[delete]\nurl = \"https://jsonplaceholder.typicode.com/posts/1\"\n\n[delete.headers]\nAuthorization = \"Bearer _.auth_token\"\nAccept = \"application/json\"\n",
            ),
        ),
        children: None,
        is_selectable: true,
        item_type: String::from_str("file"),
    };
    let get_transactions = PandaCollection {
        id: String::from_str("6"),
        name: String::from_str("get_transactions.toml"),
        path: String::from_str("transactions/get_transactions.toml"),
        content: Some(
            String::from_str(
                "[get]\nurl = \"https://jsonplaceholder.typicode.com/posts\"\n\n[get.query]\nuserId = \"1234\"\n\n[get.headers]\nAuthorization = \"Bearer _.auth_token\"\nAccept = \"application/json\"\n",
            ),
        ),
        children: None,
        is_selectable: true,
        item_type: String::from_str("file"),
    };
    let create_transaction = PandaCollection {
        id: String::from_str("7"),
        name: String::from_str("create_transaction.toml"),
        path: String::from_str("transactions/create_transaction.toml"),
        content: Some(
            String::from_str(
                "[post]\nurl = \"https://jsonplaceholder.typicode.com/posts\"\n\n[post.json]\ncontent = \"\"\"\n{\n    \"userId\": \"jae\",\n    \"amount\": 500,\n    \"currency\": \"USD\",\n    \"description\": \"Payment for services\"\n}\n\"\"\"\n\n[post.headers]\nAuthorization = \"Bearer _.auth_token\"\nContent-Type = \"application/json\"\n",
            ),
        ),
        children: None,
        is_selectable: true,
        item_type: String::from_str("file"),
    };
    let mut transaction_children: Vec<PandaCollection> = Vec::new();
    transaction_children.push(delete_transactions);
    transaction_children.push(get_transactions);
    transaction_children.push(create_transaction);
    let transactions = PandaCollection {
        id: String::from_str("4"),
        name: String::from_str("transactions"),
        path: String::from_str("transactions"),
        content: None,
        children: Some(transaction_children),
        is_selectable: false,
        item_type: String::from_str("folder"),
    };
    let delayed_request = PandaCollection {
        id: String::from_str("8"),
        name: String::from_str("delayed_request.toml"),
        path: String::from_str("delayed_request.toml"),
        content: Some(
            String::from_str(
                "[get]\nurl = \"https://httpbin.org/delay/5\"\n\n[get.headers]\nAuthorization = \"Bearer _.auth_token\"\nAccept = \"application/json\"\n    ",
            ),
        ),
        children: None,
        is_selectable: true,
        item_type: String::from_str("file"),
    };
    let mut root_children: Vec<PandaCollection> = Vec::new();
    root_children.push(get_products);
    root_children.push(get_user);
    root_children.push(transactions);
    root_children.push(delayed_request);
    let root = PandaCollection {
        id: String::from_str("1"),
        name: String::from_str("collection"),
        path: String::from_str("collection"),
        content: None,
        children: Some(root_children),
        is_selectable: false,
        item_type: String::from_str("folder"),
    };
    let mut out: Vec<PandaCollection> = Vec::new();
    out.push(root);
    out
}

} // verus!
